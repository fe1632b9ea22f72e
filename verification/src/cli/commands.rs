//! The command-line commands: help, creating and switching zones, and the
//! line-oriented REPL's command words.

use vstd::prelude::*;
use crate::error::AppError;
use crate::rs::strings_view;
use crate::storage::manager::{ZoneManager, with_zone};
use crate::text::{concat_str, lowercase, to_lower, str_eq};

verus! {

/// The help text.
pub open spec fn help_text() -> Seq<char> {
    "\nAvailable commands:\n\n  create <zone_name>  Create a new file zone\n  use <zone_name>     Switch to a file zone\n  list                List files in the current zone\n  list area           List all file zones\n  list storage        Show storage locations\n  get <file_name>     Export a file from the zone\n  put [name]          Import a file into the zone\n  del <file_name>     Delete a file from the zone\n\nP2P Commands:\n  peers               Show discovered LAN peers\n  ruse <n>            Select peer #n to connect\n  ruse <zone>         Select a remote zone\n  rarea               List remote zones\n  rlist               List files in selected zone\n  rget <n>            Download file #n (opens save dialog)\n\nRS (Block Sharing) Commands:\n  rs                  Enter RS mode\n  rslist              List RS shared files\n  rsput [name]        Share a file into RS space\n  rsget <number>      Download RS file by number\n  rsget <file_name>   Download a file from RS space\n  rsdel <number>      Delete RS file by number (propagates to peers)\n  rsdel <file_name>   Delete a file from RS space (propagates to peers)\n  rsstatus            Show RS mode/sync/transfer status\n  rsstats             Show RS local stats (files/blocks/size)\n  rshave <n|name>      Show local blocks for an RS file\n  rspeers             Refresh and show RS peer list\n  rsprogress          Show current RS transfer/sync progress\n  rscfg show               Show RS settings\n  rscfg concurrency N       Set RS download concurrency (2-16)\n  rscfg sync_concurrency N  Set RS sync concurrency (2-16)\n  rscfg block_size N        Set RS block size in MB (4-32)\n  rscfg gsyn <0|1>          Set RS global sync (0=RS mode only, 1=always sync)\n  rxiu                     Return to default mode\n\n  help                Show this help message\n  exit, quit          Exit the program\n\nNavigation (in file browser):\n  j/↓         Move down\n  k/↑         Move up\n  Enter/l     Enter directory\n  h/Backspace Go to parent directory\n  y           Confirm selection\n  q/Esc       Cancel\n"@
}

/// The help message listing every command.
pub fn help() -> (r: String)
    ensures
        r@ == help_text(),
{
    String::from_str("\nAvailable commands:\n\n  create <zone_name>  Create a new file zone\n  use <zone_name>     Switch to a file zone\n  list                List files in the current zone\n  list area           List all file zones\n  list storage        Show storage locations\n  get <file_name>     Export a file from the zone\n  put [name]          Import a file into the zone\n  del <file_name>     Delete a file from the zone\n\nP2P Commands:\n  peers               Show discovered LAN peers\n  ruse <n>            Select peer #n to connect\n  ruse <zone>         Select a remote zone\n  rarea               List remote zones\n  rlist               List files in selected zone\n  rget <n>            Download file #n (opens save dialog)\n\nRS (Block Sharing) Commands:\n  rs                  Enter RS mode\n  rslist              List RS shared files\n  rsput [name]        Share a file into RS space\n  rsget <number>      Download RS file by number\n  rsget <file_name>   Download a file from RS space\n  rsdel <number>      Delete RS file by number (propagates to peers)\n  rsdel <file_name>   Delete a file from RS space (propagates to peers)\n  rsstatus            Show RS mode/sync/transfer status\n  rsstats             Show RS local stats (files/blocks/size)\n  rshave <n|name>      Show local blocks for an RS file\n  rspeers             Refresh and show RS peer list\n  rsprogress          Show current RS transfer/sync progress\n  rscfg show               Show RS settings\n  rscfg concurrency N       Set RS download concurrency (2-16)\n  rscfg sync_concurrency N  Set RS sync concurrency (2-16)\n  rscfg block_size N        Set RS block size in MB (4-32)\n  rscfg gsyn <0|1>          Set RS global sync (0=RS mode only, 1=always sync)\n  rxiu                     Return to default mode\n\n  help                Show this help message\n  exit, quit          Exit the program\n\nNavigation (in file browser):\n  j/↓         Move down\n  k/↑         Move up\n  Enter/l     Enter directory\n  h/Backspace Go to parent directory\n  y           Confirm selection\n  q/Esc       Cancel\n")
}

/// Whether a character is alphanumeric, as `char::is_alphanumeric` decides.
pub uninterp spec fn alphanumeric(c: char) -> bool;

/// An ASCII letter or digit.
pub open spec fn ascii_alnum(c: char) -> bool {
    let n = c as u32;
    (48 <= n && n <= 57) || (65 <= n && n <= 90) || (97 <= n && n <= 122)
}

/// Whether a character is alphanumeric.
///
/// Trusted: `char::is_alphanumeric`, which std documents as "alphabetic or
/// numeric" by the Unicode properties; the contract names the result and
/// states the ASCII case, where those properties hold of the letters `A`-`Z`,
/// `a`-`z` and the digits `0`-`9` and of nothing else.
#[verifier::external_body]
fn char_alphanumeric(c: char) -> (r: bool)
    ensures
        r == alphanumeric(c),
        (c as u32) < 128 ==> r == ascii_alnum(c),
{
    c.is_alphanumeric()
}

/// A character a zone name may hold: a letter or digit (for ASCII, `A`-`Z`,
/// `a`-`z`, `0`-`9`), an underscore or a hyphen.
pub open spec fn zone_char(c: char) -> bool {
    (if (c as u32) < 128 { ascii_alnum(c) } else { alphanumeric(c) }) || c == '_' || c == '-'
}

/// A zone name may hold letters, digits, underscores and hyphens.
pub open spec fn valid_zone_name(name: Seq<char>) -> bool {
    forall|i: int| 0 <= i < name.len() ==> zone_char(#[trigger] name[i])
}

/// Whether the name is a valid zone name.
pub fn zone_name_ok(name: &str) -> (r: bool)
    ensures
        r == valid_zone_name(name@),
{
    let n = name.unicode_len();
    let mut i: usize = 0;
    while i < n
        invariant
            n == name@.len(),
            i <= n,
            forall|j: int| 0 <= j < i ==> zone_char(#[trigger] name@[j]),
        decreases n - i,
    {
        let c = name.get_char(i);
        if !(char_alphanumeric(c) || c == '_' || c == '-') {
            return false;
        }
        i = i + 1;
    }
    true
}

/// Which zone names are accepted: a name is valid exactly when each of its
/// characters is a letter, a digit, `_` or `-`. In particular a name with an
/// ASCII character outside `A`-`Z`, `a`-`z`, `0`-`9`, `_` and `-` (such as
/// `.`, `/` or a space) is rejected, so `create` registers nothing for it,
/// and an ASCII name made only of those characters is accepted.
pub proof fn law_zone_names(name: Seq<char>)
    ensures
        (exists|i: int|
            0 <= i < name.len() && (#[trigger] name[i] as u32) < 128 && !ascii_alnum(name[i]) && name[i] != '_'
                && name[i] != '-') ==> !valid_zone_name(name),
        name.contains('.') || name.contains('/') || name.contains(' ') ==> !valid_zone_name(name),
        (forall|i: int|
            0 <= i < name.len() ==> (#[trigger] name[i] as u32) < 128 && (ascii_alnum(name[i]) || name[i] == '_'
                || name[i] == '-')) ==> valid_zone_name(name),
{
    if exists|i: int|
        0 <= i < name.len() && (#[trigger] name[i] as u32) < 128 && !ascii_alnum(name[i]) && name[i] != '_'
            && name[i] != '-' {
        let i = choose|i: int|
            0 <= i < name.len() && (#[trigger] name[i] as u32) < 128 && !ascii_alnum(name[i]) && name[i] != '_'
                && name[i] != '-';
        assert(!zone_char(name[i]));
    }
    if name.contains('.') || name.contains('/') || name.contains(' ') {
        let i = choose|i: int| 0 <= i < name.len() && (name[i] == '.' || name[i] == '/' || name[i] == ' ');
        assert(!zone_char(name[i]));
    }
}

/// The message for an invalid zone name.
pub open spec fn invalid_name_text() -> Seq<char> {
    "Error: Zone name can only contain letters, numbers, underscores, and hyphens"@
}

/// `create <zone_name>`: registers a new zone. Without an argument it is a
/// missing-argument error; an invalid name gets a message and changes
/// nothing; an existing zone is an error.
pub fn create(manager: &mut ZoneManager, args: &Vec<String>) -> (r: Result<String, AppError>)
    requires
        old(manager).wf(),
    ensures
        final(manager).wf(),
        final(manager)@.active == old(manager)@.active,
        args@.len() == 0 ==> (r matches Err(AppError::MissingArgument(a)) && a@ == "zone_name"@)
            && final(manager)@ == old(manager)@,
        args@.len() > 0 && !valid_zone_name(args@[0]@) ==> (r matches Ok(m) && m@ == invalid_name_text())
            && final(manager)@ == old(manager)@,
        args@.len() > 0 && valid_zone_name(args@[0]@) ==> {
            &&& final(manager)@.zones == with_zone(old(manager)@.zones, args@[0]@)
            &&& old(manager)@.zones.contains(args@[0]@) ==> (r matches Err(AppError::ZoneAlreadyExists(n)) && n@
                == args@[0]@)
            &&& !old(manager)@.zones.contains(args@[0]@) ==> (r matches Ok(m) && m@ == "Zone '"@ + args@[0]@
                + "' created successfully."@)
        },
{
    if args.len() == 0 {
        return Err(AppError::MissingArgument(String::from_str("zone_name")));
    }
    let name = &args[0];
    if !zone_name_ok(name.as_str()) {
        return Ok(String::from_str(
            "Error: Zone name can only contain letters, numbers, underscores, and hyphens",
        ));
    }
    match manager.create_zone(name.as_str()) {
        Ok(()) => {
            let m = concat_str("Zone '", name.as_str());
            Ok(m.concat("' created successfully."))
        },
        Err(e) => Err(e),
    }
}

/// `use <zone_name>`: makes the zone active.
pub fn use_zone(manager: &mut ZoneManager, args: &Vec<String>) -> (r: Result<String, AppError>)
    requires
        old(manager).wf(),
    ensures
        final(manager).wf(),
        final(manager)@.zones == old(manager)@.zones,
        args@.len() == 0 ==> (r matches Err(AppError::MissingArgument(a)) && a@ == "zone_name"@)
            && final(manager)@ == old(manager)@,
        args@.len() > 0 && old(manager)@.zones.contains(args@[0]@) ==> (r matches Ok(m) && m@ == "Switched to zone '"@
            + args@[0]@ + "'."@) && final(manager)@.active == Some(args@[0]@),
        args@.len() > 0 && !old(manager)@.zones.contains(args@[0]@) ==> (r matches Err(AppError::ZoneNotFound(n))
            && n@ == args@[0]@) && final(manager)@ == old(manager)@,
{
    if args.len() == 0 {
        return Err(AppError::MissingArgument(String::from_str("zone_name")));
    }
    let name = &args[0];
    match manager.set_active(name.as_str()) {
        Ok(()) => {
            let m = concat_str("Switched to zone '", name.as_str());
            Ok(m.concat("'."))
        },
        Err(e) => Err(e),
    }
}

/// The commands of the line-oriented REPL.
#[derive(Debug, Clone, Copy, PartialEq, Eq, Structural)]
pub enum ReplCommand {
    Create,
    Use,
    List,
    Get,
    Put,
    Help,
    Exit,
    Invalid,
}

/// The REPL command a lower-cased word names.
pub open spec fn repl_command(w: Seq<char>) -> ReplCommand {
    if w == "create"@ {
        ReplCommand::Create
    } else if w == "use"@ {
        ReplCommand::Use
    } else if w == "list"@ || w == "ls"@ {
        ReplCommand::List
    } else if w == "get"@ {
        ReplCommand::Get
    } else if w == "put"@ {
        ReplCommand::Put
    } else if w == "help"@ || w == "?"@ {
        ReplCommand::Help
    } else if w == "exit"@ || w == "quit"@ || w == "q"@ {
        ReplCommand::Exit
    } else {
        ReplCommand::Invalid
    }
}

/// The REPL command named by a word, compared case-insensitively.
pub fn classify_repl(word: &str) -> (r: ReplCommand)
    ensures
        r == repl_command(lowercase(word@)),
{
    let w = to_lower(word);
    let s = w.as_str();
    if str_eq(s, "create") {
        ReplCommand::Create
    } else if str_eq(s, "use") {
        ReplCommand::Use
    } else if str_eq(s, "list") || str_eq(s, "ls") {
        ReplCommand::List
    } else if str_eq(s, "get") {
        ReplCommand::Get
    } else if str_eq(s, "put") {
        ReplCommand::Put
    } else if str_eq(s, "help") || str_eq(s, "?") {
        ReplCommand::Help
    } else if str_eq(s, "exit") || str_eq(s, "quit") || str_eq(s, "q") {
        ReplCommand::Exit
    } else {
        ReplCommand::Invalid
    }
}

} // verus!

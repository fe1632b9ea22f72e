//! Parsing of the command line typed in the terminal UI, and the `rscfg`
//! settings command.

use vstd::prelude::*;
use crate::config::AppConfig;
use crate::rs::strings_view;
use crate::text::{words, split_words, lowercase, to_lower, ascii_lower, str_eq, unsigned_value, parse_unsigned, decimal,
    push_decimal, concat_str};
use crate::tui::output::{OutputLine, LineStyle, lines_view};

verus! {

/// The commands of the terminal UI.
#[derive(Debug, Clone, Copy, PartialEq, Eq, Structural)]
pub enum TuiCommand {
    Create,
    Use,
    List,
    Get,
    Put,
    Delete,
    Peers,
    Remote,
    Ruse,
    Rarea,
    Rlist,
    Rget,
    Rs,
    RsList,
    RsStatus,
    RsStats,
    RsHave,
    RsPeers,
    RsProgress,
    RsPut,
    RsGet,
    RsDel,
    RsCfg,
    Rxiu,
    Help,
    Quit,
    Unknown,
}

/// The command a lower-cased command word names.
pub open spec fn tui_command(w: Seq<char>) -> TuiCommand {
    if w == "create"@ {
        TuiCommand::Create
    } else if w == "use"@ {
        TuiCommand::Use
    } else if w == "list"@ {
        TuiCommand::List
    } else if w == "get"@ {
        TuiCommand::Get
    } else if w == "put"@ {
        TuiCommand::Put
    } else if w == "del"@ || w == "delete"@ || w == "rm"@ {
        TuiCommand::Delete
    } else if w == "peers"@ {
        TuiCommand::Peers
    } else if w == "remote"@ {
        TuiCommand::Remote
    } else if w == "ruse"@ {
        TuiCommand::Ruse
    } else if w == "rarea"@ {
        TuiCommand::Rarea
    } else if w == "rlist"@ {
        TuiCommand::Rlist
    } else if w == "rget"@ {
        TuiCommand::Rget
    } else if w == "rs"@ {
        TuiCommand::Rs
    } else if w == "rslist"@ {
        TuiCommand::RsList
    } else if w == "rsstatus"@ {
        TuiCommand::RsStatus
    } else if w == "rsstats"@ {
        TuiCommand::RsStats
    } else if w == "rshave"@ {
        TuiCommand::RsHave
    } else if w == "rspeers"@ {
        TuiCommand::RsPeers
    } else if w == "rsprogress"@ {
        TuiCommand::RsProgress
    } else if w == "rsput"@ {
        TuiCommand::RsPut
    } else if w == "rsget"@ {
        TuiCommand::RsGet
    } else if w == "rsdel"@ {
        TuiCommand::RsDel
    } else if w == "rscfg"@ {
        TuiCommand::RsCfg
    } else if w == "rxiu"@ {
        TuiCommand::Rxiu
    } else if w == "help"@ || w == "?"@ {
        TuiCommand::Help
    } else if w == "exit"@ || w == "quit"@ || w == "q"@ {
        TuiCommand::Quit
    } else {
        TuiCommand::Unknown
    }
}

fn is(w: &String, lit: &str) -> (r: bool)
    ensures
        r == (w@ == lit@),
{
    str_eq(w.as_str(), lit)
}

/// The command named by a command word, compared case-insensitively.
pub fn classify(word: &str) -> (r: TuiCommand)
    ensures
        r == tui_command(lowercase(word@)),
        vstd::utf8::is_ascii_chars(word@) ==> r == tui_command(word@.map_values(|c: char| ascii_lower(c))),
{
    let w = to_lower(word);
    if is(&w, "create") {
        TuiCommand::Create
    } else if is(&w, "use") {
        TuiCommand::Use
    } else if is(&w, "list") {
        TuiCommand::List
    } else if is(&w, "get") {
        TuiCommand::Get
    } else if is(&w, "put") {
        TuiCommand::Put
    } else if is(&w, "del") || is(&w, "delete") || is(&w, "rm") {
        TuiCommand::Delete
    } else if is(&w, "peers") {
        TuiCommand::Peers
    } else if is(&w, "remote") {
        TuiCommand::Remote
    } else if is(&w, "ruse") {
        TuiCommand::Ruse
    } else if is(&w, "rarea") {
        TuiCommand::Rarea
    } else if is(&w, "rlist") {
        TuiCommand::Rlist
    } else if is(&w, "rget") {
        TuiCommand::Rget
    } else if is(&w, "rs") {
        TuiCommand::Rs
    } else if is(&w, "rslist") {
        TuiCommand::RsList
    } else if is(&w, "rsstatus") {
        TuiCommand::RsStatus
    } else if is(&w, "rsstats") {
        TuiCommand::RsStats
    } else if is(&w, "rshave") {
        TuiCommand::RsHave
    } else if is(&w, "rspeers") {
        TuiCommand::RsPeers
    } else if is(&w, "rsprogress") {
        TuiCommand::RsProgress
    } else if is(&w, "rsput") {
        TuiCommand::RsPut
    } else if is(&w, "rsget") {
        TuiCommand::RsGet
    } else if is(&w, "rsdel") {
        TuiCommand::RsDel
    } else if is(&w, "rscfg") {
        TuiCommand::RsCfg
    } else if is(&w, "rxiu") {
        TuiCommand::Rxiu
    } else if is(&w, "help") || is(&w, "?") {
        TuiCommand::Help
    } else if is(&w, "exit") || is(&w, "quit") || is(&w, "q") {
        TuiCommand::Quit
    } else {
        TuiCommand::Unknown
    }
}

/// A typed line: the command its first word names and the other words as
/// arguments; `None` for a line of white space only.
pub fn parse_input(input: &str) -> (r: Option<(TuiCommand, Vec<String>)>)
    ensures
        words(input@).len() == 0 ==> r is None,
        words(input@).len() > 0 ==> (r matches Some((c, args)) && c == tui_command(lowercase(words(input@)[0]))
            && strings_view(args@) == words(input@).skip(1)),
{
    let mut ws = split_words(input);
    if ws.len() == 0 {
        return None;
    }
    let ghost wv = strings_view(ws@);
    let first = ws.remove(0);
    assert(strings_view(ws@) =~= wv.skip(1));
    let c = classify(first.as_str());
    Some((c, ws))
}

/// The usage line of `rscfg`.
pub open spec fn rscfg_usage() -> Seq<char> {
    "Usage: rscfg show | rscfg concurrency <2-16> | rscfg sync_concurrency <2-16> | rscfg block_size <4-32> | rscfg gsyn <0|1>"@
}

/// An integer setting's value when it lies within `[lo, hi]`.
pub open spec fn setting_in(v: Seq<char>, lo: nat, hi: nat) -> Option<nat> {
    match unsigned_value(v) {
        Some(n) => if lo <= n && n <= hi {
            Some(n)
        } else {
            None
        },
        None => None,
    }
}

/// What `rscfg` does: the settings afterwards, whether to save them, and
/// the lines it prints.
pub open spec fn rscfg_spec(c: AppConfig, args: Seq<Seq<char>>) -> (AppConfig, bool, Seq<(Seq<char>, LineStyle)>) {
    if args.len() == 2 && args[0] == "concurrency"@ {
        match setting_in(args[1], 2, 16) {
            Some(v) => (
                AppConfig { rs_concurrency: v as usize, ..c },
                true,
                seq![("RS download concurrency set to "@ + decimal(v), LineStyle::Success)],
            ),
            None => (c, false, seq![("Usage: rscfg concurrency <2-16>"@, LineStyle::Error)]),
        }
    } else if args.len() == 2 && args[0] == "sync_concurrency"@ {
        match setting_in(args[1], 2, 16) {
            Some(v) => (
                AppConfig { rs_sync_concurrency: v as usize, ..c },
                true,
                seq![("RS sync concurrency set to "@ + decimal(v), LineStyle::Success)],
            ),
            None => (c, false, seq![("Usage: rscfg sync_concurrency <2-16>"@, LineStyle::Error)]),
        }
    } else if args.len() == 2 && args[0] == "block_size"@ {
        match setting_in(args[1], 4, 32) {
            Some(v) => (
                AppConfig { rs_block_size_mb: v as u64, ..c },
                true,
                seq![("RS block size set to "@ + decimal(v) + " MB"@, LineStyle::Success)],
            ),
            None => (c, false, seq![("Usage: rscfg block_size <4-32>"@, LineStyle::Error)]),
        }
    } else if args.len() == 2 && args[0] == "gsyn"@ {
        if args[1] == "0"@ {
            (
                AppConfig { rs_global_sync: false, ..c },
                true,
                seq![("RS global sync set to 0 (RS mode only)."@, LineStyle::Success)],
            )
        } else if args[1] == "1"@ {
            (
                AppConfig { rs_global_sync: true, ..c },
                true,
                seq![("RS global sync set to 1 (always sync)."@, LineStyle::Success)],
            )
        } else {
            (c, false, seq![("Usage: rscfg gsyn <0|1>"@, LineStyle::Error)])
        }
    } else if args.len() == 0 || (args.len() == 1 && args[0] == "show"@) {
        (
            c,
            false,
            seq![
                ("RS download concurrency: "@ + decimal(c.rs_concurrency as nat), LineStyle::Info),
                ("RS sync concurrency: "@ + decimal(c.rs_sync_concurrency as nat), LineStyle::Info),
                ("RS block size: "@ + decimal(c.rs_block_size_mb as nat) + " MB"@, LineStyle::Info),
                ("RS global sync: "@ + (if c.rs_global_sync { "1"@ } else { "0"@ }), LineStyle::Info),
                ("Use 'rscfg concurrency <2-16>' to change download concurrency."@, LineStyle::Info),
                ("Use 'rscfg sync_concurrency <2-16>' to change sync concurrency."@, LineStyle::Info),
                ("Use 'rscfg block_size <4-32>' to change RS block size."@, LineStyle::Info),
                ("Use 'rscfg gsyn <0|1>' to toggle global sync."@, LineStyle::Info),
            ],
        )
    } else {
        (c, false, seq![(rscfg_usage(), LineStyle::Error)])
    }
}

fn num_text(prefix: &str, n: u64) -> (r: String)
    ensures
        r@ == prefix@ + decimal(n as nat),
{
    let mut s = String::from_str(prefix);
    push_decimal(&mut s, n);
    s
}

fn text_num(prefix: &str, n: u64, suffix: &str) -> (r: String)
    ensures
        r@ == prefix@ + decimal(n as nat) + suffix@,
{
    let mut s = String::from_str(prefix);
    push_decimal(&mut s, n);
    s.append(suffix);
    s
}

fn setting(v: &String, lo: u64, hi: u64) -> (r: Option<u64>)
    requires
        hi <= usize::MAX,
    ensures
        match setting_in(v@, lo as nat, hi as nat) {
            Some(n) => r == Some(n as u64),
            None => r is None,
        },
{
    match parse_unsigned(v.as_str(), usize::MAX as u64) {
        Some(n) => {
            if lo <= n && n <= hi {
                Some(n)
            } else {
                None
            }
        },
        None => {
            proof {
                if let Some(n) = unsigned_value(v@) {
                    assert(n > usize::MAX);
                }
            }
            None
        },
    }
}

/// Runs `rscfg` with the given arguments on the current settings: returns
/// the new settings, whether they changed (and so must be saved), and the
/// lines to print.
pub fn rscfg(config: &AppConfig, args: &Vec<String>) -> (r: (AppConfig, bool, Vec<OutputLine>))
    ensures
        (r.0, r.1, lines_view(r.2@)) == rscfg_spec(*config, strings_view(args@)),
{
    let ghost av = strings_view(args@);
    let c = *config;
    let mut out: Vec<OutputLine> = Vec::new();
    if args.len() == 2 && is(&args[0], "concurrency") {
        match setting(&args[1], 2, 16) {
            Some(v) => {
                out.push(OutputLine::success(num_text("RS download concurrency set to ", v)));
                assert(lines_view(out@) =~= seq![("RS download concurrency set to "@ + decimal(v as nat), LineStyle::Success)]);
                return (AppConfig { rs_concurrency: v as usize, ..c }, true, out);
            },
            None => {
                out.push(OutputLine::error(String::from_str("Usage: rscfg concurrency <2-16>")));
                assert(lines_view(out@) =~= seq![("Usage: rscfg concurrency <2-16>"@, LineStyle::Error)]);
                return (c, false, out);
            },
        }
    }
    if args.len() == 2 && is(&args[0], "sync_concurrency") {
        match setting(&args[1], 2, 16) {
            Some(v) => {
                out.push(OutputLine::success(num_text("RS sync concurrency set to ", v)));
                assert(lines_view(out@) =~= seq![("RS sync concurrency set to "@ + decimal(v as nat), LineStyle::Success)]);
                return (AppConfig { rs_sync_concurrency: v as usize, ..c }, true, out);
            },
            None => {
                out.push(OutputLine::error(String::from_str("Usage: rscfg sync_concurrency <2-16>")));
                assert(lines_view(out@) =~= seq![("Usage: rscfg sync_concurrency <2-16>"@, LineStyle::Error)]);
                return (c, false, out);
            },
        }
    }
    if args.len() == 2 && is(&args[0], "block_size") {
        match setting(&args[1], 4, 32) {
            Some(v) => {
                out.push(OutputLine::success(text_num("RS block size set to ", v, " MB")));
                assert(lines_view(out@) =~= seq![("RS block size set to "@ + decimal(v as nat) + " MB"@, LineStyle::Success)]);
                return (AppConfig { rs_block_size_mb: v, ..c }, true, out);
            },
            None => {
                out.push(OutputLine::error(String::from_str("Usage: rscfg block_size <4-32>")));
                assert(lines_view(out@) =~= seq![("Usage: rscfg block_size <4-32>"@, LineStyle::Error)]);
                return (c, false, out);
            },
        }
    }
    if args.len() == 2 && is(&args[0], "gsyn") {
        if is(&args[1], "0") {
            out.push(OutputLine::success(String::from_str("RS global sync set to 0 (RS mode only).")));
            assert(lines_view(out@) =~= seq![("RS global sync set to 0 (RS mode only)."@, LineStyle::Success)]);
            return (AppConfig { rs_global_sync: false, ..c }, true, out);
        }
        if is(&args[1], "1") {
            out.push(OutputLine::success(String::from_str("RS global sync set to 1 (always sync).")));
            assert(lines_view(out@) =~= seq![("RS global sync set to 1 (always sync)."@, LineStyle::Success)]);
            return (AppConfig { rs_global_sync: true, ..c }, true, out);
        }
        out.push(OutputLine::error(String::from_str("Usage: rscfg gsyn <0|1>")));
        assert(lines_view(out@) =~= seq![("Usage: rscfg gsyn <0|1>"@, LineStyle::Error)]);
        return (c, false, out);
    }
    if args.len() == 0 || (args.len() == 1 && is(&args[0], "show")) {
        out.push(OutputLine::info(num_text("RS download concurrency: ", c.rs_concurrency as u64)));
        out.push(OutputLine::info(num_text("RS sync concurrency: ", c.rs_sync_concurrency as u64)));
        out.push(OutputLine::info(text_num("RS block size: ", c.rs_block_size_mb, " MB")));
        out.push(OutputLine::info(num_text("RS global sync: ", if c.rs_global_sync { 1 } else { 0 })));
        out.push(OutputLine::info(String::from_str("Use 'rscfg concurrency <2-16>' to change download concurrency.")));
        out.push(OutputLine::info(String::from_str("Use 'rscfg sync_concurrency <2-16>' to change sync concurrency.")));
        out.push(OutputLine::info(String::from_str("Use 'rscfg block_size <4-32>' to change RS block size.")));
        out.push(OutputLine::info(String::from_str("Use 'rscfg gsyn <0|1>' to toggle global sync.")));
        proof {
            assert(decimal(1) =~= "1"@) by {
                reveal_strlit("1");
            }
            assert(decimal(0) =~= "0"@) by {
                reveal_strlit("0");
            }
        }
        assert(lines_view(out@) =~= rscfg_spec(c, av).2);
        return (c, false, out);
    }
    out.push(OutputLine::error(String::from_str(
        "Usage: rscfg show | rscfg concurrency <2-16> | rscfg sync_concurrency <2-16> | rscfg block_size <4-32> | rscfg gsyn <0|1>",
    )));
    assert(lines_view(out@) =~= seq![(rscfg_usage(), LineStyle::Error)]);
    (c, false, out)
}

/// A setting changed by `rscfg` reads back from `rscfg show`: the printed
/// value is the one set.
pub proof fn law_rscfg_set_then_show(c: AppConfig, v: Seq<char>)
    requires
        setting_in(v, 2, 16) is Some,
    ensures
        ({
            let after = rscfg_spec(c, seq!["concurrency"@, v]).0;
            let shown = rscfg_spec(after, seq!["show"@]).2;
            shown[0].0 == "RS download concurrency: "@ + decimal(setting_in(v, 2, 16)->0)
        }),
{
    let n = setting_in(v, 2, 16)->0;
    assert(seq!["concurrency"@, v][0] == "concurrency"@);
    assert(seq!["concurrency"@, v][1] == v);
    assert(seq!["show"@][0] == "show"@);
    assert(n as usize as nat == n);
}


/// Every command word of the manual names its own command: none of them is
/// unknown, and each one's command is the one the manual gives it.
pub proof fn law_manual_commands()
    ensures
        tui_command("create"@) == TuiCommand::Create,
        tui_command("use"@) == TuiCommand::Use,
        tui_command("list"@) == TuiCommand::List,
        tui_command("get"@) == TuiCommand::Get,
        tui_command("put"@) == TuiCommand::Put,
        tui_command("del"@) == TuiCommand::Delete,
        tui_command("delete"@) == TuiCommand::Delete,
        tui_command("rm"@) == TuiCommand::Delete,
        tui_command("peers"@) == TuiCommand::Peers,
        tui_command("remote"@) == TuiCommand::Remote,
        tui_command("ruse"@) == TuiCommand::Ruse,
        tui_command("rarea"@) == TuiCommand::Rarea,
        tui_command("rlist"@) == TuiCommand::Rlist,
        tui_command("rget"@) == TuiCommand::Rget,
        tui_command("rs"@) == TuiCommand::Rs,
        tui_command("rslist"@) == TuiCommand::RsList,
        tui_command("rsstatus"@) == TuiCommand::RsStatus,
        tui_command("rsstats"@) == TuiCommand::RsStats,
        tui_command("rshave"@) == TuiCommand::RsHave,
        tui_command("rspeers"@) == TuiCommand::RsPeers,
        tui_command("rsprogress"@) == TuiCommand::RsProgress,
        tui_command("rsput"@) == TuiCommand::RsPut,
        tui_command("rsget"@) == TuiCommand::RsGet,
        tui_command("rsdel"@) == TuiCommand::RsDel,
        tui_command("rscfg"@) == TuiCommand::RsCfg,
        tui_command("rxiu"@) == TuiCommand::Rxiu,
        tui_command("help"@) == TuiCommand::Help,
        tui_command("?"@) == TuiCommand::Help,
        tui_command("exit"@) == TuiCommand::Quit,
        tui_command("quit"@) == TuiCommand::Quit,
        tui_command("q"@) == TuiCommand::Quit,
{
    assert(tui_command("create"@) == TuiCommand::Create) by {
        reveal_strlit("create");
    }
    assert(tui_command("use"@) == TuiCommand::Use) by {
        reveal_strlit("use");
        reveal_strlit("create");
        assert("use"@.len() != "create"@.len());
    }
    assert(tui_command("list"@) == TuiCommand::List) by {
        reveal_strlit("list");
        reveal_strlit("create");
        assert("list"@.len() != "create"@.len());
        reveal_strlit("use");
        assert("list"@.len() != "use"@.len());
    }
    assert(tui_command("get"@) == TuiCommand::Get) by {
        reveal_strlit("get");
        reveal_strlit("create");
        assert("get"@.len() != "create"@.len());
        reveal_strlit("use");
        assert("get"@[0] != "use"@[0]);
        reveal_strlit("list");
        assert("get"@.len() != "list"@.len());
    }
    assert(tui_command("put"@) == TuiCommand::Put) by {
        reveal_strlit("put");
        reveal_strlit("create");
        assert("put"@.len() != "create"@.len());
        reveal_strlit("use");
        assert("put"@[0] != "use"@[0]);
        reveal_strlit("list");
        assert("put"@.len() != "list"@.len());
        reveal_strlit("get");
        assert("put"@[0] != "get"@[0]);
    }
    assert(tui_command("del"@) == TuiCommand::Delete) by {
        reveal_strlit("del");
        reveal_strlit("create");
        assert("del"@.len() != "create"@.len());
        reveal_strlit("use");
        assert("del"@[0] != "use"@[0]);
        reveal_strlit("list");
        assert("del"@.len() != "list"@.len());
        reveal_strlit("get");
        assert("del"@[0] != "get"@[0]);
        reveal_strlit("put");
        assert("del"@[0] != "put"@[0]);
    }
    assert(tui_command("delete"@) == TuiCommand::Delete) by {
        reveal_strlit("delete");
        reveal_strlit("create");
        assert("delete"@[0] != "create"@[0]);
        reveal_strlit("use");
        assert("delete"@.len() != "use"@.len());
        reveal_strlit("list");
        assert("delete"@.len() != "list"@.len());
        reveal_strlit("get");
        assert("delete"@.len() != "get"@.len());
        reveal_strlit("put");
        assert("delete"@.len() != "put"@.len());
        reveal_strlit("del");
        assert("delete"@.len() != "del"@.len());
    }
    assert(tui_command("rm"@) == TuiCommand::Delete) by {
        reveal_strlit("rm");
        reveal_strlit("create");
        assert("rm"@.len() != "create"@.len());
        reveal_strlit("use");
        assert("rm"@.len() != "use"@.len());
        reveal_strlit("list");
        assert("rm"@.len() != "list"@.len());
        reveal_strlit("get");
        assert("rm"@.len() != "get"@.len());
        reveal_strlit("put");
        assert("rm"@.len() != "put"@.len());
        reveal_strlit("del");
        assert("rm"@.len() != "del"@.len());
        reveal_strlit("delete");
        assert("rm"@.len() != "delete"@.len());
    }
    assert(tui_command("peers"@) == TuiCommand::Peers) by {
        reveal_strlit("peers");
        reveal_strlit("create");
        assert("peers"@.len() != "create"@.len());
        reveal_strlit("use");
        assert("peers"@.len() != "use"@.len());
        reveal_strlit("list");
        assert("peers"@.len() != "list"@.len());
        reveal_strlit("get");
        assert("peers"@.len() != "get"@.len());
        reveal_strlit("put");
        assert("peers"@.len() != "put"@.len());
        reveal_strlit("del");
        assert("peers"@.len() != "del"@.len());
        reveal_strlit("delete");
        assert("peers"@.len() != "delete"@.len());
        reveal_strlit("rm");
        assert("peers"@.len() != "rm"@.len());
    }
    assert(tui_command("remote"@) == TuiCommand::Remote) by {
        reveal_strlit("remote");
        reveal_strlit("create");
        assert("remote"@[0] != "create"@[0]);
        reveal_strlit("use");
        assert("remote"@.len() != "use"@.len());
        reveal_strlit("list");
        assert("remote"@.len() != "list"@.len());
        reveal_strlit("get");
        assert("remote"@.len() != "get"@.len());
        reveal_strlit("put");
        assert("remote"@.len() != "put"@.len());
        reveal_strlit("del");
        assert("remote"@.len() != "del"@.len());
        reveal_strlit("delete");
        assert("remote"@[0] != "delete"@[0]);
        reveal_strlit("rm");
        assert("remote"@.len() != "rm"@.len());
        reveal_strlit("peers");
        assert("remote"@.len() != "peers"@.len());
    }
    assert(tui_command("ruse"@) == TuiCommand::Ruse) by {
        reveal_strlit("ruse");
        reveal_strlit("create");
        assert("ruse"@.len() != "create"@.len());
        reveal_strlit("use");
        assert("ruse"@.len() != "use"@.len());
        reveal_strlit("list");
        assert("ruse"@[0] != "list"@[0]);
        reveal_strlit("get");
        assert("ruse"@.len() != "get"@.len());
        reveal_strlit("put");
        assert("ruse"@.len() != "put"@.len());
        reveal_strlit("del");
        assert("ruse"@.len() != "del"@.len());
        reveal_strlit("delete");
        assert("ruse"@.len() != "delete"@.len());
        reveal_strlit("rm");
        assert("ruse"@.len() != "rm"@.len());
        reveal_strlit("peers");
        assert("ruse"@.len() != "peers"@.len());
        reveal_strlit("remote");
        assert("ruse"@.len() != "remote"@.len());
    }
    assert(tui_command("rarea"@) == TuiCommand::Rarea) by {
        reveal_strlit("rarea");
        reveal_strlit("create");
        assert("rarea"@.len() != "create"@.len());
        reveal_strlit("use");
        assert("rarea"@.len() != "use"@.len());
        reveal_strlit("list");
        assert("rarea"@.len() != "list"@.len());
        reveal_strlit("get");
        assert("rarea"@.len() != "get"@.len());
        reveal_strlit("put");
        assert("rarea"@.len() != "put"@.len());
        reveal_strlit("del");
        assert("rarea"@.len() != "del"@.len());
        reveal_strlit("delete");
        assert("rarea"@.len() != "delete"@.len());
        reveal_strlit("rm");
        assert("rarea"@.len() != "rm"@.len());
        reveal_strlit("peers");
        assert("rarea"@[0] != "peers"@[0]);
        reveal_strlit("remote");
        assert("rarea"@.len() != "remote"@.len());
        reveal_strlit("ruse");
        assert("rarea"@.len() != "ruse"@.len());
    }
    assert(tui_command("rlist"@) == TuiCommand::Rlist) by {
        reveal_strlit("rlist");
        reveal_strlit("create");
        assert("rlist"@.len() != "create"@.len());
        reveal_strlit("use");
        assert("rlist"@.len() != "use"@.len());
        reveal_strlit("list");
        assert("rlist"@.len() != "list"@.len());
        reveal_strlit("get");
        assert("rlist"@.len() != "get"@.len());
        reveal_strlit("put");
        assert("rlist"@.len() != "put"@.len());
        reveal_strlit("del");
        assert("rlist"@.len() != "del"@.len());
        reveal_strlit("delete");
        assert("rlist"@.len() != "delete"@.len());
        reveal_strlit("rm");
        assert("rlist"@.len() != "rm"@.len());
        reveal_strlit("peers");
        assert("rlist"@[0] != "peers"@[0]);
        reveal_strlit("remote");
        assert("rlist"@.len() != "remote"@.len());
        reveal_strlit("ruse");
        assert("rlist"@.len() != "ruse"@.len());
        reveal_strlit("rarea");
        assert("rlist"@[1] != "rarea"@[1]);
    }
    assert(tui_command("rget"@) == TuiCommand::Rget) by {
        reveal_strlit("rget");
        reveal_strlit("create");
        assert("rget"@.len() != "create"@.len());
        reveal_strlit("use");
        assert("rget"@.len() != "use"@.len());
        reveal_strlit("list");
        assert("rget"@[0] != "list"@[0]);
        reveal_strlit("get");
        assert("rget"@.len() != "get"@.len());
        reveal_strlit("put");
        assert("rget"@.len() != "put"@.len());
        reveal_strlit("del");
        assert("rget"@.len() != "del"@.len());
        reveal_strlit("delete");
        assert("rget"@.len() != "delete"@.len());
        reveal_strlit("rm");
        assert("rget"@.len() != "rm"@.len());
        reveal_strlit("peers");
        assert("rget"@.len() != "peers"@.len());
        reveal_strlit("remote");
        assert("rget"@.len() != "remote"@.len());
        reveal_strlit("ruse");
        assert("rget"@[1] != "ruse"@[1]);
        reveal_strlit("rarea");
        assert("rget"@.len() != "rarea"@.len());
        reveal_strlit("rlist");
        assert("rget"@.len() != "rlist"@.len());
    }
    assert(tui_command("rs"@) == TuiCommand::Rs) by {
        reveal_strlit("rs");
        reveal_strlit("create");
        assert("rs"@.len() != "create"@.len());
        reveal_strlit("use");
        assert("rs"@.len() != "use"@.len());
        reveal_strlit("list");
        assert("rs"@.len() != "list"@.len());
        reveal_strlit("get");
        assert("rs"@.len() != "get"@.len());
        reveal_strlit("put");
        assert("rs"@.len() != "put"@.len());
        reveal_strlit("del");
        assert("rs"@.len() != "del"@.len());
        reveal_strlit("delete");
        assert("rs"@.len() != "delete"@.len());
        reveal_strlit("rm");
        assert("rs"@[1] != "rm"@[1]);
        reveal_strlit("peers");
        assert("rs"@.len() != "peers"@.len());
        reveal_strlit("remote");
        assert("rs"@.len() != "remote"@.len());
        reveal_strlit("ruse");
        assert("rs"@.len() != "ruse"@.len());
        reveal_strlit("rarea");
        assert("rs"@.len() != "rarea"@.len());
        reveal_strlit("rlist");
        assert("rs"@.len() != "rlist"@.len());
        reveal_strlit("rget");
        assert("rs"@.len() != "rget"@.len());
    }
    assert(tui_command("rslist"@) == TuiCommand::RsList) by {
        reveal_strlit("rslist");
        reveal_strlit("create");
        assert("rslist"@[0] != "create"@[0]);
        reveal_strlit("use");
        assert("rslist"@.len() != "use"@.len());
        reveal_strlit("list");
        assert("rslist"@.len() != "list"@.len());
        reveal_strlit("get");
        assert("rslist"@.len() != "get"@.len());
        reveal_strlit("put");
        assert("rslist"@.len() != "put"@.len());
        reveal_strlit("del");
        assert("rslist"@.len() != "del"@.len());
        reveal_strlit("delete");
        assert("rslist"@[0] != "delete"@[0]);
        reveal_strlit("rm");
        assert("rslist"@.len() != "rm"@.len());
        reveal_strlit("peers");
        assert("rslist"@.len() != "peers"@.len());
        reveal_strlit("remote");
        assert("rslist"@[1] != "remote"@[1]);
        reveal_strlit("ruse");
        assert("rslist"@.len() != "ruse"@.len());
        reveal_strlit("rarea");
        assert("rslist"@.len() != "rarea"@.len());
        reveal_strlit("rlist");
        assert("rslist"@.len() != "rlist"@.len());
        reveal_strlit("rget");
        assert("rslist"@.len() != "rget"@.len());
        reveal_strlit("rs");
        assert("rslist"@.len() != "rs"@.len());
    }
    assert(tui_command("rsstatus"@) == TuiCommand::RsStatus) by {
        reveal_strlit("rsstatus");
        reveal_strlit("create");
        assert("rsstatus"@.len() != "create"@.len());
        reveal_strlit("use");
        assert("rsstatus"@.len() != "use"@.len());
        reveal_strlit("list");
        assert("rsstatus"@.len() != "list"@.len());
        reveal_strlit("get");
        assert("rsstatus"@.len() != "get"@.len());
        reveal_strlit("put");
        assert("rsstatus"@.len() != "put"@.len());
        reveal_strlit("del");
        assert("rsstatus"@.len() != "del"@.len());
        reveal_strlit("delete");
        assert("rsstatus"@.len() != "delete"@.len());
        reveal_strlit("rm");
        assert("rsstatus"@.len() != "rm"@.len());
        reveal_strlit("peers");
        assert("rsstatus"@.len() != "peers"@.len());
        reveal_strlit("remote");
        assert("rsstatus"@.len() != "remote"@.len());
        reveal_strlit("ruse");
        assert("rsstatus"@.len() != "ruse"@.len());
        reveal_strlit("rarea");
        assert("rsstatus"@.len() != "rarea"@.len());
        reveal_strlit("rlist");
        assert("rsstatus"@.len() != "rlist"@.len());
        reveal_strlit("rget");
        assert("rsstatus"@.len() != "rget"@.len());
        reveal_strlit("rs");
        assert("rsstatus"@.len() != "rs"@.len());
        reveal_strlit("rslist");
        assert("rsstatus"@.len() != "rslist"@.len());
    }
    assert(tui_command("rsstats"@) == TuiCommand::RsStats) by {
        reveal_strlit("rsstats");
        reveal_strlit("create");
        assert("rsstats"@.len() != "create"@.len());
        reveal_strlit("use");
        assert("rsstats"@.len() != "use"@.len());
        reveal_strlit("list");
        assert("rsstats"@.len() != "list"@.len());
        reveal_strlit("get");
        assert("rsstats"@.len() != "get"@.len());
        reveal_strlit("put");
        assert("rsstats"@.len() != "put"@.len());
        reveal_strlit("del");
        assert("rsstats"@.len() != "del"@.len());
        reveal_strlit("delete");
        assert("rsstats"@.len() != "delete"@.len());
        reveal_strlit("rm");
        assert("rsstats"@.len() != "rm"@.len());
        reveal_strlit("peers");
        assert("rsstats"@.len() != "peers"@.len());
        reveal_strlit("remote");
        assert("rsstats"@.len() != "remote"@.len());
        reveal_strlit("ruse");
        assert("rsstats"@.len() != "ruse"@.len());
        reveal_strlit("rarea");
        assert("rsstats"@.len() != "rarea"@.len());
        reveal_strlit("rlist");
        assert("rsstats"@.len() != "rlist"@.len());
        reveal_strlit("rget");
        assert("rsstats"@.len() != "rget"@.len());
        reveal_strlit("rs");
        assert("rsstats"@.len() != "rs"@.len());
        reveal_strlit("rslist");
        assert("rsstats"@.len() != "rslist"@.len());
        reveal_strlit("rsstatus");
        assert("rsstats"@.len() != "rsstatus"@.len());
    }
    assert(tui_command("rshave"@) == TuiCommand::RsHave) by {
        reveal_strlit("rshave");
        reveal_strlit("create");
        assert("rshave"@[0] != "create"@[0]);
        reveal_strlit("use");
        assert("rshave"@.len() != "use"@.len());
        reveal_strlit("list");
        assert("rshave"@.len() != "list"@.len());
        reveal_strlit("get");
        assert("rshave"@.len() != "get"@.len());
        reveal_strlit("put");
        assert("rshave"@.len() != "put"@.len());
        reveal_strlit("del");
        assert("rshave"@.len() != "del"@.len());
        reveal_strlit("delete");
        assert("rshave"@[0] != "delete"@[0]);
        reveal_strlit("rm");
        assert("rshave"@.len() != "rm"@.len());
        reveal_strlit("peers");
        assert("rshave"@.len() != "peers"@.len());
        reveal_strlit("remote");
        assert("rshave"@[1] != "remote"@[1]);
        reveal_strlit("ruse");
        assert("rshave"@.len() != "ruse"@.len());
        reveal_strlit("rarea");
        assert("rshave"@.len() != "rarea"@.len());
        reveal_strlit("rlist");
        assert("rshave"@.len() != "rlist"@.len());
        reveal_strlit("rget");
        assert("rshave"@.len() != "rget"@.len());
        reveal_strlit("rs");
        assert("rshave"@.len() != "rs"@.len());
        reveal_strlit("rslist");
        assert("rshave"@[2] != "rslist"@[2]);
        reveal_strlit("rsstatus");
        assert("rshave"@.len() != "rsstatus"@.len());
        reveal_strlit("rsstats");
        assert("rshave"@.len() != "rsstats"@.len());
    }
    assert(tui_command("rspeers"@) == TuiCommand::RsPeers) by {
        reveal_strlit("rspeers");
        reveal_strlit("create");
        assert("rspeers"@.len() != "create"@.len());
        reveal_strlit("use");
        assert("rspeers"@.len() != "use"@.len());
        reveal_strlit("list");
        assert("rspeers"@.len() != "list"@.len());
        reveal_strlit("get");
        assert("rspeers"@.len() != "get"@.len());
        reveal_strlit("put");
        assert("rspeers"@.len() != "put"@.len());
        reveal_strlit("del");
        assert("rspeers"@.len() != "del"@.len());
        reveal_strlit("delete");
        assert("rspeers"@.len() != "delete"@.len());
        reveal_strlit("rm");
        assert("rspeers"@.len() != "rm"@.len());
        reveal_strlit("peers");
        assert("rspeers"@.len() != "peers"@.len());
        reveal_strlit("remote");
        assert("rspeers"@.len() != "remote"@.len());
        reveal_strlit("ruse");
        assert("rspeers"@.len() != "ruse"@.len());
        reveal_strlit("rarea");
        assert("rspeers"@.len() != "rarea"@.len());
        reveal_strlit("rlist");
        assert("rspeers"@.len() != "rlist"@.len());
        reveal_strlit("rget");
        assert("rspeers"@.len() != "rget"@.len());
        reveal_strlit("rs");
        assert("rspeers"@.len() != "rs"@.len());
        reveal_strlit("rslist");
        assert("rspeers"@.len() != "rslist"@.len());
        reveal_strlit("rsstatus");
        assert("rspeers"@.len() != "rsstatus"@.len());
        reveal_strlit("rsstats");
        assert("rspeers"@[2] != "rsstats"@[2]);
        reveal_strlit("rshave");
        assert("rspeers"@.len() != "rshave"@.len());
    }
    assert(tui_command("rsprogress"@) == TuiCommand::RsProgress) by {
        reveal_strlit("rsprogress");
        reveal_strlit("create");
        assert("rsprogress"@.len() != "create"@.len());
        reveal_strlit("use");
        assert("rsprogress"@.len() != "use"@.len());
        reveal_strlit("list");
        assert("rsprogress"@.len() != "list"@.len());
        reveal_strlit("get");
        assert("rsprogress"@.len() != "get"@.len());
        reveal_strlit("put");
        assert("rsprogress"@.len() != "put"@.len());
        reveal_strlit("del");
        assert("rsprogress"@.len() != "del"@.len());
        reveal_strlit("delete");
        assert("rsprogress"@.len() != "delete"@.len());
        reveal_strlit("rm");
        assert("rsprogress"@.len() != "rm"@.len());
        reveal_strlit("peers");
        assert("rsprogress"@.len() != "peers"@.len());
        reveal_strlit("remote");
        assert("rsprogress"@.len() != "remote"@.len());
        reveal_strlit("ruse");
        assert("rsprogress"@.len() != "ruse"@.len());
        reveal_strlit("rarea");
        assert("rsprogress"@.len() != "rarea"@.len());
        reveal_strlit("rlist");
        assert("rsprogress"@.len() != "rlist"@.len());
        reveal_strlit("rget");
        assert("rsprogress"@.len() != "rget"@.len());
        reveal_strlit("rs");
        assert("rsprogress"@.len() != "rs"@.len());
        reveal_strlit("rslist");
        assert("rsprogress"@.len() != "rslist"@.len());
        reveal_strlit("rsstatus");
        assert("rsprogress"@.len() != "rsstatus"@.len());
        reveal_strlit("rsstats");
        assert("rsprogress"@.len() != "rsstats"@.len());
        reveal_strlit("rshave");
        assert("rsprogress"@.len() != "rshave"@.len());
        reveal_strlit("rspeers");
        assert("rsprogress"@.len() != "rspeers"@.len());
    }
    assert(tui_command("rsput"@) == TuiCommand::RsPut) by {
        reveal_strlit("rsput");
        reveal_strlit("create");
        assert("rsput"@.len() != "create"@.len());
        reveal_strlit("use");
        assert("rsput"@.len() != "use"@.len());
        reveal_strlit("list");
        assert("rsput"@.len() != "list"@.len());
        reveal_strlit("get");
        assert("rsput"@.len() != "get"@.len());
        reveal_strlit("put");
        assert("rsput"@.len() != "put"@.len());
        reveal_strlit("del");
        assert("rsput"@.len() != "del"@.len());
        reveal_strlit("delete");
        assert("rsput"@.len() != "delete"@.len());
        reveal_strlit("rm");
        assert("rsput"@.len() != "rm"@.len());
        reveal_strlit("peers");
        assert("rsput"@[0] != "peers"@[0]);
        reveal_strlit("remote");
        assert("rsput"@.len() != "remote"@.len());
        reveal_strlit("ruse");
        assert("rsput"@.len() != "ruse"@.len());
        reveal_strlit("rarea");
        assert("rsput"@[1] != "rarea"@[1]);
        reveal_strlit("rlist");
        assert("rsput"@[1] != "rlist"@[1]);
        reveal_strlit("rget");
        assert("rsput"@.len() != "rget"@.len());
        reveal_strlit("rs");
        assert("rsput"@.len() != "rs"@.len());
        reveal_strlit("rslist");
        assert("rsput"@.len() != "rslist"@.len());
        reveal_strlit("rsstatus");
        assert("rsput"@.len() != "rsstatus"@.len());
        reveal_strlit("rsstats");
        assert("rsput"@.len() != "rsstats"@.len());
        reveal_strlit("rshave");
        assert("rsput"@.len() != "rshave"@.len());
        reveal_strlit("rspeers");
        assert("rsput"@.len() != "rspeers"@.len());
        reveal_strlit("rsprogress");
        assert("rsput"@.len() != "rsprogress"@.len());
    }
    assert(tui_command("rsget"@) == TuiCommand::RsGet) by {
        reveal_strlit("rsget");
        reveal_strlit("create");
        assert("rsget"@.len() != "create"@.len());
        reveal_strlit("use");
        assert("rsget"@.len() != "use"@.len());
        reveal_strlit("list");
        assert("rsget"@.len() != "list"@.len());
        reveal_strlit("get");
        assert("rsget"@.len() != "get"@.len());
        reveal_strlit("put");
        assert("rsget"@.len() != "put"@.len());
        reveal_strlit("del");
        assert("rsget"@.len() != "del"@.len());
        reveal_strlit("delete");
        assert("rsget"@.len() != "delete"@.len());
        reveal_strlit("rm");
        assert("rsget"@.len() != "rm"@.len());
        reveal_strlit("peers");
        assert("rsget"@[0] != "peers"@[0]);
        reveal_strlit("remote");
        assert("rsget"@.len() != "remote"@.len());
        reveal_strlit("ruse");
        assert("rsget"@.len() != "ruse"@.len());
        reveal_strlit("rarea");
        assert("rsget"@[1] != "rarea"@[1]);
        reveal_strlit("rlist");
        assert("rsget"@[1] != "rlist"@[1]);
        reveal_strlit("rget");
        assert("rsget"@.len() != "rget"@.len());
        reveal_strlit("rs");
        assert("rsget"@.len() != "rs"@.len());
        reveal_strlit("rslist");
        assert("rsget"@.len() != "rslist"@.len());
        reveal_strlit("rsstatus");
        assert("rsget"@.len() != "rsstatus"@.len());
        reveal_strlit("rsstats");
        assert("rsget"@.len() != "rsstats"@.len());
        reveal_strlit("rshave");
        assert("rsget"@.len() != "rshave"@.len());
        reveal_strlit("rspeers");
        assert("rsget"@.len() != "rspeers"@.len());
        reveal_strlit("rsprogress");
        assert("rsget"@.len() != "rsprogress"@.len());
        reveal_strlit("rsput");
        assert("rsget"@[2] != "rsput"@[2]);
    }
    assert(tui_command("rsdel"@) == TuiCommand::RsDel) by {
        reveal_strlit("rsdel");
        reveal_strlit("create");
        assert("rsdel"@.len() != "create"@.len());
        reveal_strlit("use");
        assert("rsdel"@.len() != "use"@.len());
        reveal_strlit("list");
        assert("rsdel"@.len() != "list"@.len());
        reveal_strlit("get");
        assert("rsdel"@.len() != "get"@.len());
        reveal_strlit("put");
        assert("rsdel"@.len() != "put"@.len());
        reveal_strlit("del");
        assert("rsdel"@.len() != "del"@.len());
        reveal_strlit("delete");
        assert("rsdel"@.len() != "delete"@.len());
        reveal_strlit("rm");
        assert("rsdel"@.len() != "rm"@.len());
        reveal_strlit("peers");
        assert("rsdel"@[0] != "peers"@[0]);
        reveal_strlit("remote");
        assert("rsdel"@.len() != "remote"@.len());
        reveal_strlit("ruse");
        assert("rsdel"@.len() != "ruse"@.len());
        reveal_strlit("rarea");
        assert("rsdel"@[1] != "rarea"@[1]);
        reveal_strlit("rlist");
        assert("rsdel"@[1] != "rlist"@[1]);
        reveal_strlit("rget");
        assert("rsdel"@.len() != "rget"@.len());
        reveal_strlit("rs");
        assert("rsdel"@.len() != "rs"@.len());
        reveal_strlit("rslist");
        assert("rsdel"@.len() != "rslist"@.len());
        reveal_strlit("rsstatus");
        assert("rsdel"@.len() != "rsstatus"@.len());
        reveal_strlit("rsstats");
        assert("rsdel"@.len() != "rsstats"@.len());
        reveal_strlit("rshave");
        assert("rsdel"@.len() != "rshave"@.len());
        reveal_strlit("rspeers");
        assert("rsdel"@.len() != "rspeers"@.len());
        reveal_strlit("rsprogress");
        assert("rsdel"@.len() != "rsprogress"@.len());
        reveal_strlit("rsput");
        assert("rsdel"@[2] != "rsput"@[2]);
        reveal_strlit("rsget");
        assert("rsdel"@[2] != "rsget"@[2]);
    }
    assert(tui_command("rscfg"@) == TuiCommand::RsCfg) by {
        reveal_strlit("rscfg");
        reveal_strlit("create");
        assert("rscfg"@.len() != "create"@.len());
        reveal_strlit("use");
        assert("rscfg"@.len() != "use"@.len());
        reveal_strlit("list");
        assert("rscfg"@.len() != "list"@.len());
        reveal_strlit("get");
        assert("rscfg"@.len() != "get"@.len());
        reveal_strlit("put");
        assert("rscfg"@.len() != "put"@.len());
        reveal_strlit("del");
        assert("rscfg"@.len() != "del"@.len());
        reveal_strlit("delete");
        assert("rscfg"@.len() != "delete"@.len());
        reveal_strlit("rm");
        assert("rscfg"@.len() != "rm"@.len());
        reveal_strlit("peers");
        assert("rscfg"@[0] != "peers"@[0]);
        reveal_strlit("remote");
        assert("rscfg"@.len() != "remote"@.len());
        reveal_strlit("ruse");
        assert("rscfg"@.len() != "ruse"@.len());
        reveal_strlit("rarea");
        assert("rscfg"@[1] != "rarea"@[1]);
        reveal_strlit("rlist");
        assert("rscfg"@[1] != "rlist"@[1]);
        reveal_strlit("rget");
        assert("rscfg"@.len() != "rget"@.len());
        reveal_strlit("rs");
        assert("rscfg"@.len() != "rs"@.len());
        reveal_strlit("rslist");
        assert("rscfg"@.len() != "rslist"@.len());
        reveal_strlit("rsstatus");
        assert("rscfg"@.len() != "rsstatus"@.len());
        reveal_strlit("rsstats");
        assert("rscfg"@.len() != "rsstats"@.len());
        reveal_strlit("rshave");
        assert("rscfg"@.len() != "rshave"@.len());
        reveal_strlit("rspeers");
        assert("rscfg"@.len() != "rspeers"@.len());
        reveal_strlit("rsprogress");
        assert("rscfg"@.len() != "rsprogress"@.len());
        reveal_strlit("rsput");
        assert("rscfg"@[2] != "rsput"@[2]);
        reveal_strlit("rsget");
        assert("rscfg"@[2] != "rsget"@[2]);
        reveal_strlit("rsdel");
        assert("rscfg"@[2] != "rsdel"@[2]);
    }
    assert(tui_command("rxiu"@) == TuiCommand::Rxiu) by {
        reveal_strlit("rxiu");
        reveal_strlit("create");
        assert("rxiu"@.len() != "create"@.len());
        reveal_strlit("use");
        assert("rxiu"@.len() != "use"@.len());
        reveal_strlit("list");
        assert("rxiu"@[0] != "list"@[0]);
        reveal_strlit("get");
        assert("rxiu"@.len() != "get"@.len());
        reveal_strlit("put");
        assert("rxiu"@.len() != "put"@.len());
        reveal_strlit("del");
        assert("rxiu"@.len() != "del"@.len());
        reveal_strlit("delete");
        assert("rxiu"@.len() != "delete"@.len());
        reveal_strlit("rm");
        assert("rxiu"@.len() != "rm"@.len());
        reveal_strlit("peers");
        assert("rxiu"@.len() != "peers"@.len());
        reveal_strlit("remote");
        assert("rxiu"@.len() != "remote"@.len());
        reveal_strlit("ruse");
        assert("rxiu"@[1] != "ruse"@[1]);
        reveal_strlit("rarea");
        assert("rxiu"@.len() != "rarea"@.len());
        reveal_strlit("rlist");
        assert("rxiu"@.len() != "rlist"@.len());
        reveal_strlit("rget");
        assert("rxiu"@[1] != "rget"@[1]);
        reveal_strlit("rs");
        assert("rxiu"@.len() != "rs"@.len());
        reveal_strlit("rslist");
        assert("rxiu"@.len() != "rslist"@.len());
        reveal_strlit("rsstatus");
        assert("rxiu"@.len() != "rsstatus"@.len());
        reveal_strlit("rsstats");
        assert("rxiu"@.len() != "rsstats"@.len());
        reveal_strlit("rshave");
        assert("rxiu"@.len() != "rshave"@.len());
        reveal_strlit("rspeers");
        assert("rxiu"@.len() != "rspeers"@.len());
        reveal_strlit("rsprogress");
        assert("rxiu"@.len() != "rsprogress"@.len());
        reveal_strlit("rsput");
        assert("rxiu"@.len() != "rsput"@.len());
        reveal_strlit("rsget");
        assert("rxiu"@.len() != "rsget"@.len());
        reveal_strlit("rsdel");
        assert("rxiu"@.len() != "rsdel"@.len());
        reveal_strlit("rscfg");
        assert("rxiu"@.len() != "rscfg"@.len());
    }
    assert(tui_command("help"@) == TuiCommand::Help) by {
        reveal_strlit("help");
        reveal_strlit("create");
        assert("help"@.len() != "create"@.len());
        reveal_strlit("use");
        assert("help"@.len() != "use"@.len());
        reveal_strlit("list");
        assert("help"@[0] != "list"@[0]);
        reveal_strlit("get");
        assert("help"@.len() != "get"@.len());
        reveal_strlit("put");
        assert("help"@.len() != "put"@.len());
        reveal_strlit("del");
        assert("help"@.len() != "del"@.len());
        reveal_strlit("delete");
        assert("help"@.len() != "delete"@.len());
        reveal_strlit("rm");
        assert("help"@.len() != "rm"@.len());
        reveal_strlit("peers");
        assert("help"@.len() != "peers"@.len());
        reveal_strlit("remote");
        assert("help"@.len() != "remote"@.len());
        reveal_strlit("ruse");
        assert("help"@[0] != "ruse"@[0]);
        reveal_strlit("rarea");
        assert("help"@.len() != "rarea"@.len());
        reveal_strlit("rlist");
        assert("help"@.len() != "rlist"@.len());
        reveal_strlit("rget");
        assert("help"@[0] != "rget"@[0]);
        reveal_strlit("rs");
        assert("help"@.len() != "rs"@.len());
        reveal_strlit("rslist");
        assert("help"@.len() != "rslist"@.len());
        reveal_strlit("rsstatus");
        assert("help"@.len() != "rsstatus"@.len());
        reveal_strlit("rsstats");
        assert("help"@.len() != "rsstats"@.len());
        reveal_strlit("rshave");
        assert("help"@.len() != "rshave"@.len());
        reveal_strlit("rspeers");
        assert("help"@.len() != "rspeers"@.len());
        reveal_strlit("rsprogress");
        assert("help"@.len() != "rsprogress"@.len());
        reveal_strlit("rsput");
        assert("help"@.len() != "rsput"@.len());
        reveal_strlit("rsget");
        assert("help"@.len() != "rsget"@.len());
        reveal_strlit("rsdel");
        assert("help"@.len() != "rsdel"@.len());
        reveal_strlit("rscfg");
        assert("help"@.len() != "rscfg"@.len());
        reveal_strlit("rxiu");
        assert("help"@[0] != "rxiu"@[0]);
    }
    assert(tui_command("?"@) == TuiCommand::Help) by {
        reveal_strlit("?");
        reveal_strlit("create");
        assert("?"@.len() != "create"@.len());
        reveal_strlit("use");
        assert("?"@.len() != "use"@.len());
        reveal_strlit("list");
        assert("?"@.len() != "list"@.len());
        reveal_strlit("get");
        assert("?"@.len() != "get"@.len());
        reveal_strlit("put");
        assert("?"@.len() != "put"@.len());
        reveal_strlit("del");
        assert("?"@.len() != "del"@.len());
        reveal_strlit("delete");
        assert("?"@.len() != "delete"@.len());
        reveal_strlit("rm");
        assert("?"@.len() != "rm"@.len());
        reveal_strlit("peers");
        assert("?"@.len() != "peers"@.len());
        reveal_strlit("remote");
        assert("?"@.len() != "remote"@.len());
        reveal_strlit("ruse");
        assert("?"@.len() != "ruse"@.len());
        reveal_strlit("rarea");
        assert("?"@.len() != "rarea"@.len());
        reveal_strlit("rlist");
        assert("?"@.len() != "rlist"@.len());
        reveal_strlit("rget");
        assert("?"@.len() != "rget"@.len());
        reveal_strlit("rs");
        assert("?"@.len() != "rs"@.len());
        reveal_strlit("rslist");
        assert("?"@.len() != "rslist"@.len());
        reveal_strlit("rsstatus");
        assert("?"@.len() != "rsstatus"@.len());
        reveal_strlit("rsstats");
        assert("?"@.len() != "rsstats"@.len());
        reveal_strlit("rshave");
        assert("?"@.len() != "rshave"@.len());
        reveal_strlit("rspeers");
        assert("?"@.len() != "rspeers"@.len());
        reveal_strlit("rsprogress");
        assert("?"@.len() != "rsprogress"@.len());
        reveal_strlit("rsput");
        assert("?"@.len() != "rsput"@.len());
        reveal_strlit("rsget");
        assert("?"@.len() != "rsget"@.len());
        reveal_strlit("rsdel");
        assert("?"@.len() != "rsdel"@.len());
        reveal_strlit("rscfg");
        assert("?"@.len() != "rscfg"@.len());
        reveal_strlit("rxiu");
        assert("?"@.len() != "rxiu"@.len());
        reveal_strlit("help");
        assert("?"@.len() != "help"@.len());
    }
    assert(tui_command("exit"@) == TuiCommand::Quit) by {
        reveal_strlit("exit");
        reveal_strlit("create");
        assert("exit"@.len() != "create"@.len());
        reveal_strlit("use");
        assert("exit"@.len() != "use"@.len());
        reveal_strlit("list");
        assert("exit"@[0] != "list"@[0]);
        reveal_strlit("get");
        assert("exit"@.len() != "get"@.len());
        reveal_strlit("put");
        assert("exit"@.len() != "put"@.len());
        reveal_strlit("del");
        assert("exit"@.len() != "del"@.len());
        reveal_strlit("delete");
        assert("exit"@.len() != "delete"@.len());
        reveal_strlit("rm");
        assert("exit"@.len() != "rm"@.len());
        reveal_strlit("peers");
        assert("exit"@.len() != "peers"@.len());
        reveal_strlit("remote");
        assert("exit"@.len() != "remote"@.len());
        reveal_strlit("ruse");
        assert("exit"@[0] != "ruse"@[0]);
        reveal_strlit("rarea");
        assert("exit"@.len() != "rarea"@.len());
        reveal_strlit("rlist");
        assert("exit"@.len() != "rlist"@.len());
        reveal_strlit("rget");
        assert("exit"@[0] != "rget"@[0]);
        reveal_strlit("rs");
        assert("exit"@.len() != "rs"@.len());
        reveal_strlit("rslist");
        assert("exit"@.len() != "rslist"@.len());
        reveal_strlit("rsstatus");
        assert("exit"@.len() != "rsstatus"@.len());
        reveal_strlit("rsstats");
        assert("exit"@.len() != "rsstats"@.len());
        reveal_strlit("rshave");
        assert("exit"@.len() != "rshave"@.len());
        reveal_strlit("rspeers");
        assert("exit"@.len() != "rspeers"@.len());
        reveal_strlit("rsprogress");
        assert("exit"@.len() != "rsprogress"@.len());
        reveal_strlit("rsput");
        assert("exit"@.len() != "rsput"@.len());
        reveal_strlit("rsget");
        assert("exit"@.len() != "rsget"@.len());
        reveal_strlit("rsdel");
        assert("exit"@.len() != "rsdel"@.len());
        reveal_strlit("rscfg");
        assert("exit"@.len() != "rscfg"@.len());
        reveal_strlit("rxiu");
        assert("exit"@[0] != "rxiu"@[0]);
        reveal_strlit("help");
        assert("exit"@[0] != "help"@[0]);
        reveal_strlit("?");
        assert("exit"@.len() != "?"@.len());
    }
    assert(tui_command("quit"@) == TuiCommand::Quit) by {
        reveal_strlit("quit");
        reveal_strlit("create");
        assert("quit"@.len() != "create"@.len());
        reveal_strlit("use");
        assert("quit"@.len() != "use"@.len());
        reveal_strlit("list");
        assert("quit"@[0] != "list"@[0]);
        reveal_strlit("get");
        assert("quit"@.len() != "get"@.len());
        reveal_strlit("put");
        assert("quit"@.len() != "put"@.len());
        reveal_strlit("del");
        assert("quit"@.len() != "del"@.len());
        reveal_strlit("delete");
        assert("quit"@.len() != "delete"@.len());
        reveal_strlit("rm");
        assert("quit"@.len() != "rm"@.len());
        reveal_strlit("peers");
        assert("quit"@.len() != "peers"@.len());
        reveal_strlit("remote");
        assert("quit"@.len() != "remote"@.len());
        reveal_strlit("ruse");
        assert("quit"@[0] != "ruse"@[0]);
        reveal_strlit("rarea");
        assert("quit"@.len() != "rarea"@.len());
        reveal_strlit("rlist");
        assert("quit"@.len() != "rlist"@.len());
        reveal_strlit("rget");
        assert("quit"@[0] != "rget"@[0]);
        reveal_strlit("rs");
        assert("quit"@.len() != "rs"@.len());
        reveal_strlit("rslist");
        assert("quit"@.len() != "rslist"@.len());
        reveal_strlit("rsstatus");
        assert("quit"@.len() != "rsstatus"@.len());
        reveal_strlit("rsstats");
        assert("quit"@.len() != "rsstats"@.len());
        reveal_strlit("rshave");
        assert("quit"@.len() != "rshave"@.len());
        reveal_strlit("rspeers");
        assert("quit"@.len() != "rspeers"@.len());
        reveal_strlit("rsprogress");
        assert("quit"@.len() != "rsprogress"@.len());
        reveal_strlit("rsput");
        assert("quit"@.len() != "rsput"@.len());
        reveal_strlit("rsget");
        assert("quit"@.len() != "rsget"@.len());
        reveal_strlit("rsdel");
        assert("quit"@.len() != "rsdel"@.len());
        reveal_strlit("rscfg");
        assert("quit"@.len() != "rscfg"@.len());
        reveal_strlit("rxiu");
        assert("quit"@[0] != "rxiu"@[0]);
        reveal_strlit("help");
        assert("quit"@[0] != "help"@[0]);
        reveal_strlit("?");
        assert("quit"@.len() != "?"@.len());
        reveal_strlit("exit");
        assert("quit"@[0] != "exit"@[0]);
    }
    assert(tui_command("q"@) == TuiCommand::Quit) by {
        reveal_strlit("q");
        reveal_strlit("create");
        assert("q"@.len() != "create"@.len());
        reveal_strlit("use");
        assert("q"@.len() != "use"@.len());
        reveal_strlit("list");
        assert("q"@.len() != "list"@.len());
        reveal_strlit("get");
        assert("q"@.len() != "get"@.len());
        reveal_strlit("put");
        assert("q"@.len() != "put"@.len());
        reveal_strlit("del");
        assert("q"@.len() != "del"@.len());
        reveal_strlit("delete");
        assert("q"@.len() != "delete"@.len());
        reveal_strlit("rm");
        assert("q"@.len() != "rm"@.len());
        reveal_strlit("peers");
        assert("q"@.len() != "peers"@.len());
        reveal_strlit("remote");
        assert("q"@.len() != "remote"@.len());
        reveal_strlit("ruse");
        assert("q"@.len() != "ruse"@.len());
        reveal_strlit("rarea");
        assert("q"@.len() != "rarea"@.len());
        reveal_strlit("rlist");
        assert("q"@.len() != "rlist"@.len());
        reveal_strlit("rget");
        assert("q"@.len() != "rget"@.len());
        reveal_strlit("rs");
        assert("q"@.len() != "rs"@.len());
        reveal_strlit("rslist");
        assert("q"@.len() != "rslist"@.len());
        reveal_strlit("rsstatus");
        assert("q"@.len() != "rsstatus"@.len());
        reveal_strlit("rsstats");
        assert("q"@.len() != "rsstats"@.len());
        reveal_strlit("rshave");
        assert("q"@.len() != "rshave"@.len());
        reveal_strlit("rspeers");
        assert("q"@.len() != "rspeers"@.len());
        reveal_strlit("rsprogress");
        assert("q"@.len() != "rsprogress"@.len());
        reveal_strlit("rsput");
        assert("q"@.len() != "rsput"@.len());
        reveal_strlit("rsget");
        assert("q"@.len() != "rsget"@.len());
        reveal_strlit("rsdel");
        assert("q"@.len() != "rsdel"@.len());
        reveal_strlit("rscfg");
        assert("q"@.len() != "rscfg"@.len());
        reveal_strlit("rxiu");
        assert("q"@.len() != "rxiu"@.len());
        reveal_strlit("help");
        assert("q"@.len() != "help"@.len());
        reveal_strlit("?");
        assert("q"@[0] != "?"@[0]);
        reveal_strlit("exit");
        assert("q"@.len() != "exit"@.len());
        reveal_strlit("quit");
        assert("q"@.len() != "quit"@.len());
    }
}

} // verus!

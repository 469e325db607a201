//! Launch-argument handling of the supervised child: it accepts a
//! `--title <string>` pair anywhere in its argument list, later pairs
//! overriding earlier ones, and falls back to a default title. The
//! embedding passes the raw argument list in; the first element is the
//! program name and is skipped.

use vstd::prelude::*;
use vstd::string::StringExecFns;

verus! {

/// The configuration a supervised child runs with.
pub struct Config {
    pub title: String,
}

impl Default for Config {
    /// The default title, used when no `--title` pair is given.
    fn default() -> (c: Config)
        ensures
            c.title@ == "DiscordQuest"@,
    {
        Config { title: "DiscordQuest".to_owned() }
    }
}

/// The title selected by scanning `args` from the front: each `--title`
/// that still has a following argument replaces the current title with
/// that argument; a trailing `--title` with nothing after it is ignored.
pub open spec fn spec_title_scan(args: Seq<String>, cur: Seq<char>) -> Seq<char>
    decreases args.len(),
{
    if args.len() == 0 {
        cur
    } else if args[0]@ == "--title"@ {
        if args.len() >= 2 {
            spec_title_scan(args.skip(2), args[1]@)
        } else {
            cur
        }
    } else {
        spec_title_scan(args.skip(1), cur)
    }
}

/// The title `parse_args` extracts from a full argument list (program name
/// first).
pub open spec fn spec_parsed_title(args: Seq<String>) -> Seq<char> {
    if args.len() == 0 {
        "DiscordQuest"@
    } else {
        spec_title_scan(args.skip(1), "DiscordQuest"@)
    }
}

/// Parses the child's argument list, `args[0]` being the program name.
pub fn parse_args(args: &Vec<String>) -> (c: Config)
    ensures
        c.title@ == spec_parsed_title(args@),
{
    let flag: String = String::from_str("--title");
    let mut config = Config::default();
    let n = args.len();
    if n == 0 {
        return config;
    }
    let mut i: usize = 1;
    while i < n
        invariant
            n == args@.len(),
            flag@ == "--title"@,
            1 <= i <= n,
            spec_title_scan(args@.skip(i as int), config.title@) == spec_parsed_title(args@),
        decreases n - i,
    {
        proof {
            assert(args@.skip(i as int)[0] == args@[i as int]);
        }
        if args[i] == flag {
            if i + 1 < n {
                proof {
                    assert(args@.skip(i as int).skip(2) =~= args@.skip(i + 2));
                    assert(args@.skip(i as int)[1] == args@[i + 1]);
                }
                config.title = args[i + 1].clone();
                i = i + 2;
            } else {
                proof {
                    assert(args@.skip(i as int).len() < 2);
                }
                i = i + 1;
            }
        } else {
            proof {
                assert(args@.skip(i as int).skip(1) =~= args@.skip(i + 1));
            }
            i = i + 1;
        }
    }
    config
}

} // verus!

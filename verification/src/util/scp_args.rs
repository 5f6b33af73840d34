//! SCP argument parsing for host extraction.

use vstd::prelude::*;

use crate::external::strings_view;
use crate::text::{chars_of, first_index_of, rsplit_once, rsplit_once_chars, find_char, slice_chars, string_from_chars};

verus! {

/// Option letters of `scp` that take a value argument.
pub open spec fn is_value_option_letter(c: char) -> bool {
    c == 'c' || c == 'D' || c == 'F' || c == 'i' || c == 'J' || c == 'l' || c == 'o' || c == 'P'
        || c == 'S' || c == 'X' || c == 'Y' || c == 'Z'
}

/// `arg` is one of the options that take a value (`-c`, `-D`, `-F`, `-i`, `-J`,
/// `-l`, `-o`, `-P`, `-S`, `-X`, `-Y`, `-Z`).
pub open spec fn takes_value(arg: Seq<char>) -> bool {
    arg.len() == 2 && arg[0] == '-' && is_value_option_letter(arg[1])
}

/// `arg` starts with `-`.
pub open spec fn is_flag(arg: Seq<char>) -> bool {
    arg.len() > 0 && arg[0] == '-'
}

/// The host named by a `host:path` or `user@host:path` argument: the text before
/// the first `:`, after its last `@`, when neither is empty.
pub open spec fn host_of(arg: Seq<char>) -> Option<Seq<char>> {
    match first_index_of(arg, ':') {
        None => None,
        Some(i) => {
            let part = arg.take(i);
            let host = match rsplit_once(part, '@') {
                Some((_, h)) => h,
                None => part,
            };
            if part.len() == 0 || host.len() == 0 {
                None
            } else {
                Some(host)
            }
        },
    }
}

/// Scans the arguments left to right: the hosts found so far (each once, in order of
/// first appearance) and whether the next argument is an option's value.
pub open spec fn host_scan(args: Seq<Seq<char>>) -> (Seq<Seq<char>>, bool)
    decreases args.len(),
{
    if args.len() == 0 {
        (Seq::empty(), false)
    } else {
        let (hosts, skip_next) = host_scan(args.drop_last());
        let arg = args.last();
        if skip_next {
            (hosts, false)
        } else if takes_value(arg) {
            (hosts, true)
        } else if is_flag(arg) {
            (hosts, false)
        } else {
            match host_of(arg) {
                Some(h) => if hosts.contains(h) {
                    (hosts, false)
                } else {
                    (hosts.push(h), false)
                },
                None => (hosts, false),
            }
        }
    }
}

/// The remote hosts named by SCP arguments.
pub open spec fn remote_hosts(args: Seq<Seq<char>>) -> Seq<Seq<char>> {
    host_scan(args).0
}

/// Every host found was named by some argument, and none is found twice.
proof fn lemma_host_scan(args: Seq<Seq<char>>)
    ensures
        host_scan(args).0.no_duplicates(),
        forall|k: int|
            0 <= k < host_scan(args).0.len() ==> exists|i: int|
                0 <= i < args.len() && host_of(#[trigger] args[i]) == Some(
                    #[trigger] host_scan(args).0[k],
                ),
    decreases args.len(),
{
    if args.len() > 0 {
        let d = args.drop_last();
        lemma_host_scan(d);
        let prev = host_scan(d).0;
        let cur = host_scan(args).0;
        assert forall|k: int| 0 <= k < cur.len() implies exists|i: int|
            0 <= i < args.len() && host_of(#[trigger] args[i]) == Some(#[trigger] cur[k]) by {
            if k < prev.len() {
                assert(cur[k] == prev[k]);
                let i = choose|i: int| 0 <= i < d.len() && host_of(#[trigger] d[i]) == Some(prev[k]);
                assert(args[i] == d[i]);
            } else {
                assert(host_of(args[args.len() - 1]) == Some(cur[k]));
            }
        }
    }
}

/// One of the options of `scp` that take a value, spelled out: `-c`, `-D`, `-F`,
/// `-i`, `-J`, `-l`, `-o`, `-P`, `-S`, `-X`, `-Y`, `-Z`.
pub open spec fn is_listed_value_option(arg: Seq<char>) -> bool {
    arg =~= seq!['-', 'c'] || arg =~= seq!['-', 'D'] || arg =~= seq!['-', 'F'] || arg =~= seq!['-', 'i']
        || arg =~= seq!['-', 'J'] || arg =~= seq!['-', 'l'] || arg =~= seq!['-', 'o'] || arg =~= seq![
        '-',
        'P',
    ] || arg =~= seq!['-', 'S'] || arg =~= seq!['-', 'X'] || arg =~= seq!['-', 'Y'] || arg =~= seq![
        '-',
        'Z',
    ]
}

proof fn lemma_takes_value_is_listed(arg: Seq<char>)
    ensures
        takes_value(arg) ==> is_listed_value_option(arg),
{
    if takes_value(arg) {
        assert(arg =~= seq!['-', arg[1]]);
    }
}

/// Without options that take a value, every host named by an argument that is not
/// a flag is found, and the scan never waits for a value.
proof fn lemma_hosts_found(args: Seq<Seq<char>>)
    requires
        forall|i: int| 0 <= i < args.len() ==> !is_listed_value_option(#[trigger] args[i]),
    ensures
        !host_scan(args).1,
        forall|i: int|
            0 <= i < args.len() && !is_flag(args[i]) && #[trigger] host_of(args[i]) is Some
                ==> host_scan(args).0.contains(host_of(args[i])->0),
    decreases args.len(),
{
    if args.len() > 0 {
        let d = args.drop_last();
        assert forall|i: int| 0 <= i < d.len() implies !is_listed_value_option(#[trigger] d[i]) by {
            assert(d[i] == args[i]);
        }
        lemma_hosts_found(d);
        lemma_takes_value_is_listed(args.last());
        let prev = host_scan(d).0;
        let cur = host_scan(args).0;
        assert forall|j: int| 0 <= j < prev.len() implies cur.contains(#[trigger] prev[j]) by {
            if cur != prev {
                assert(cur[j] == prev[j]);
            }
        }
        assert forall|i: int|
            0 <= i < args.len() && !is_flag(args[i]) && #[trigger] host_of(args[i]) is Some
                implies cur.contains(host_of(args[i])->0) by {
            if i < d.len() {
                assert(d[i] == args[i]);
                let h = host_of(d[i])->0;
                let j = choose|j: int| 0 <= j < prev.len() && prev[j] == h;
                assert(cur.contains(prev[j]));
            } else {
                let h = host_of(args.last())->0;
                if !prev.contains(h) {
                    assert(cur.last() == h);
                    assert(cur[cur.len() - 1] == h);
                }
            }
        }
    }
}

/// A flag that is not one of the options taking a value (such as `-p`, `-r`, `-C`,
/// `-q`) consumes nothing: when no argument is one of those options, every
/// `host:path` argument that is not a flag yields its host.
pub proof fn law_only_value_options_consume_an_argument(args: Seq<Seq<char>>)
    requires
        forall|i: int| 0 <= i < args.len() ==> !is_listed_value_option(#[trigger] args[i]),
    ensures
        forall|i: int|
            0 <= i < args.len() && !is_flag(args[i]) && #[trigger] host_of(args[i]) is Some
                ==> remote_hosts(args).contains(host_of(args[i])->0),
{
    lemma_hosts_found(args);
}

/// An option that takes a value consumes the argument after it: `-o host:path`
/// names no host.
pub proof fn law_value_option_consumes_next(opt: Seq<char>, value: Seq<char>)
    requires
        is_listed_value_option(opt),
    ensures
        remote_hosts(seq![opt, value]) == Seq::<Seq<char>>::empty(),
{
    let args = seq![opt, value];
    assert(opt.len() == 2 && opt[0] == '-' && is_value_option_letter(opt[1]));
    assert(takes_value(opt));
    assert(args.drop_last() =~= seq![opt]);
    assert(seq![opt].drop_last() =~= Seq::<Seq<char>>::empty());
    assert(seq![opt].last() == opt);
    assert(host_scan(Seq::<Seq<char>>::empty()) == (Seq::<Seq<char>>::empty(), false));
    assert(host_scan(seq![opt]) == (Seq::<Seq<char>>::empty(), true));
    assert(args.last() == value);
}

/// Extracts the host of one `host:path` argument.
fn host_of_arg(arg: &[char]) -> (r: Option<Vec<char>>)
    ensures
        match r {
            Some(h) => host_of(arg@) == Some(h@),
            None => host_of(arg@) is None,
        },
{
    match find_char(arg, ':') {
        None => None,
        Some(colon) => {
            let part = slice_chars(arg, 0, colon);
            assert(part@ =~= arg@.take(colon as int));
            if part.len() == 0 {
                return None;
            }
            let host = match rsplit_once_chars(part.as_slice(), '@') {
                Some((_, h)) => h,
                None => part,
            };
            if host.len() == 0 {
                None
            } else {
                Some(host)
            }
        },
    }
}

/// Whether `hosts` holds a string equal to `h`.
fn contains_string(hosts: &Vec<String>, h: &String) -> (r: bool)
    ensures
        r == strings_view(hosts@).contains(h@),
{
    let mut i: usize = 0;
    while i < hosts.len()
        invariant
            i <= hosts@.len(),
            forall|j: int| 0 <= j < i ==> strings_view(hosts@)[j] != h@,
        decreases hosts@.len() - i,
    {
        if hosts[i] == *h {
            assert(strings_view(hosts@)[i as int] == h@);
            return true;
        }
        i = i + 1;
    }
    false
}

/// Extract unique remote hosts from SCP arguments.
///
/// Skips option flags (starting with `-`) and the values of options that take one,
/// and extracts the host portion from arguments containing `:` (the `host:path`
/// format). Each host appears once, in order of first appearance.
pub fn extract_hosts(args: &[String]) -> (hosts: Vec<String>)
    ensures
        strings_view(hosts@) == remote_hosts(strings_view(args@)),
        strings_view(hosts@).no_duplicates(),
        forall|k: int|
            0 <= k < hosts@.len() ==> exists|i: int|
                0 <= i < args@.len() && host_of(#[trigger] args@[i]@) == Some(
                    #[trigger] hosts@[k]@,
                ),
{
    let ghost av = strings_view(args@);
    let mut hosts: Vec<String> = Vec::new();
    let mut skip_next = false;
    let mut i: usize = 0;
    while i < args.len()
        invariant
            i <= args@.len(),
            av == strings_view(args@),
            host_scan(av.take(i as int)) == (strings_view(hosts@), skip_next),
        decreases args@.len() - i,
    {
        let ghost before = strings_view(hosts@);
        assert(av.take(i + 1).drop_last() =~= av.take(i as int));
        assert(av.take(i + 1).last() == args@[i as int]@);
        let arg = chars_of(args[i].as_str());
        if skip_next {
            skip_next = false;
        } else if arg.len() == 2 && arg[0] == '-' && (arg[1] == 'c' || arg[1] == 'D' || arg[1]
            == 'F' || arg[1] == 'i' || arg[1] == 'J' || arg[1] == 'l' || arg[1] == 'o' || arg[1]
            == 'P' || arg[1] == 'S' || arg[1] == 'X' || arg[1] == 'Y' || arg[1] == 'Z') {
            skip_next = true;
        } else if arg.len() > 0 && arg[0] == '-' {
        } else {
            match host_of_arg(arg.as_slice()) {
                Some(h) => {
                    let host = string_from_chars(h.as_slice());
                    if !contains_string(&hosts, &host) {
                        hosts.push(host);
                        assert(strings_view(hosts@) =~= before.push(h@));
                    }
                },
                None => {},
            }
        }
        i = i + 1;
    }
    assert(av.take(av.len() as int) =~= av);
    proof {
        lemma_host_scan(av);
        assert forall|k: int| 0 <= k < hosts@.len() implies exists|i: int|
            0 <= i < args@.len() && host_of(#[trigger] args@[i]@) == Some(
                #[trigger] hosts@[k]@,
            ) by {
            assert(strings_view(hosts@)[k] == hosts@[k]@);
            let i = choose|i: int| 0 <= i < av.len() && host_of(#[trigger] av[i]) == Some(
                strings_view(hosts@)[k],
            );
            assert(av[i] == args@[i]@);
        }
    }
    hosts
}

} // verus!

//! Command-line helpers that run before the argument parser.
use vstd::prelude::*;

use crate::text::{chars_eq, chars_to_string, str_chars};

verus! {

pub open spec fn lang_flag() -> Seq<char> {
    "--lang"@
}

pub open spec fn lang_prefix() -> Seq<char> {
    "--lang="@
}

/// The language asked for by the arguments from index `k` on: the argument after the
/// first `--lang`, or the value of the first `--lang=X`.
pub open spec fn prescan_from(args: Seq<Seq<char>>, k: int) -> Option<Seq<char>>
    decreases args.len() - k,
{
    if k < 0 || k >= args.len() {
        None
    } else if args[k] == lang_flag() {
        if k + 1 < args.len() { Some(args[k + 1]) } else { None }
    } else if lang_prefix().is_prefix_of(args[k]) {
        Some(args[k].subrange(lang_prefix().len() as int, args[k].len() as int))
    } else {
        prescan_from(args, k + 1)
    }
}

/// The arguments as character sequences.
pub open spec fn arg_views(args: Seq<String>) -> Seq<Seq<char>> {
    args.map_values(|a: String| a@)
}

/// Find `--lang X` / `--lang=X` before the argument parser runs, so help text is localized.
pub fn prescan_lang(args: &Vec<String>) -> (r: Option<String>)
    ensures
        r matches Some(s) ==> prescan_from(arg_views(args@), 0) == Some(s@),
        r is None <==> prescan_from(arg_views(args@), 0) is None,
{
    let flag = str_chars("--lang");
    let prefix = str_chars("--lang=");
    proof {
        reveal_strlit("--lang");
        reveal_strlit("--lang=");
    }
    let ghost views = arg_views(args@);
    let mut i: usize = 0;
    while i < args.len()
        invariant
            i <= args.len(),
            views == arg_views(args@),
            flag@ == lang_flag(),
            prefix@ == lang_prefix(),
            prescan_from(views, 0) == prescan_from(views, i as int),
        decreases args.len() - i,
    {
        let a = str_chars(args[i].as_str());
        if chars_eq(a.as_slice(), flag.as_slice()) {
            if i + 1 < args.len() {
                return Some(args[i + 1].clone());
            }
            return None;
        }
        if a.len() >= prefix.len() {
            let mut j: usize = 0;
            let mut same = true;
            while j < prefix.len()
                invariant
                    j <= prefix.len(),
                    prefix.len() <= a.len(),
                    same == forall|q: int| 0 <= q < j ==> a@[q] == prefix@[q],
                decreases prefix.len() - j,
            {
                if a[j] != prefix[j] {
                    same = false;
                }
                j = j + 1;
            }
            if same {
                let mut rest: Vec<char> = Vec::new();
                let mut q: usize = prefix.len();
                while q < a.len()
                    invariant
                        prefix.len() <= q <= a.len(),
                        rest@ == a@.subrange(prefix.len() as int, q as int),
                    decreases a.len() - q,
                {
                    rest.push(a[q]);
                    q = q + 1;
                }
                proof {
                    assert(prefix@.is_prefix_of(a@)) by {
                        assert(a@.subrange(0, prefix@.len() as int) =~= prefix@);
                    }
                }
                return Some(chars_to_string(rest.as_slice()));
            } else {
                proof {
                    if prefix@.is_prefix_of(a@) {
                        assert(forall|q: int| 0 <= q < prefix@.len() ==> a@[q] == prefix@[q]);
                    }
                }
            }
        } else {
            proof {
                assert(!prefix@.is_prefix_of(a@));
            }
        }
        i = i + 1;
    }
    None
}

} // verus!

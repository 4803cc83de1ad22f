//! The backup file served when no approved directory yields a match.

use vstd::prelude::*;

use crate::arguments::filter_containing;
use crate::text::{contains_str, remove_all, remove_all_spec, views_of};

verus! {

pub struct DefaultFile;

impl DefaultFile {
    /// The arguments that mention the default-file flag, kept whole, in
    /// order.
    pub fn find_default_file_arguments(args: &Vec<String>) -> (r: Vec<String>)
        ensures
            views_of(r@) == filter_containing(views_of(args@), "--default-file-path="@),
    {
        let ghost vs = views_of(args@);
        let ghost pat = "--default-file-path="@;
        let mut r: Vec<String> = Vec::new();
        proof {
            assert(views_of(r@) =~= Seq::<Seq<char>>::empty());
            assert(vs.subrange(0, vs.len() as int) =~= vs);
            assert(Seq::<Seq<char>>::empty() + filter_containing(vs, pat) =~= filter_containing(
                vs,
                pat,
            ));
        }
        let mut i: usize = 0;
        while i < args.len()
            invariant
                vs == views_of(args@),
                pat == "--default-file-path="@,
                i <= vs.len(),
                filter_containing(vs, pat) == views_of(r@) + filter_containing(
                    vs.subrange(i as int, vs.len() as int),
                    pat,
                ),
            decreases vs.len() - i,
        {
            let ghost before = views_of(r@);
            let ghost mid = vs.subrange(i as int, vs.len() as int);
            proof {
                assert(mid[0] == vs[i as int]);
                assert(mid.subrange(1, mid.len() as int) =~= vs.subrange(i + 1, vs.len() as int));
            }
            if contains_str(args[i].as_str(), "--default-file-path=") {
                let kept = args[i].clone();
                r.push(kept);
                proof {
                    assert(views_of(r@) =~= before + seq![vs[i as int]]);
                    assert(before + filter_containing(mid, pat) =~= (before + seq![vs[i as int]])
                        + filter_containing(vs.subrange(i + 1, vs.len() as int), pat));
                }
            }
            i += 1;
        }
        proof {
            assert(vs.subrange(i as int, vs.len() as int) =~= Seq::<Seq<char>>::empty());
            assert(views_of(r@) + filter_containing(Seq::<Seq<char>>::empty(), pat) =~= views_of(
                r@,
            ));
        }
        r
    }

    /// The backup file path the first default-file flag names — the
    /// argument with the flag stripped — or the default backup file name.
    pub fn get_default_file_or_default(args: &Vec<String>) -> (r: String)
        ensures
            ({
                let found = filter_containing(views_of(args@), "--default-file-path="@);
                if found.len() > 0 {
                    r@ == remove_all_spec(found[0], "--default-file-path="@)
                } else {
                    r@ == "403.html"@
                }
            }),
    {
        let default_file_args = DefaultFile::find_default_file_arguments(args);
        if default_file_args.len() > 0 {
            remove_all(default_file_args[0].as_str(), "--default-file-path=")
        } else {
            String::from_str("403.html")
        }
    }
}

} // verus!

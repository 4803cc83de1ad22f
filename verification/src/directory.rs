//! Selecting the directory flags out of the arguments and turning them into
//! directory strings.

use vstd::prelude::*;

use crate::arguments::filter_containing;
use crate::text::{contains_str, remove_all, remove_all_spec, views_of};

verus! {

/// Each argument with every `--dir=` flag stripped, in order.
pub open spec fn stripped_dir_flags(args: Seq<Seq<char>>) -> Seq<Seq<char>> {
    args.map_values(|a: Seq<char>| remove_all_spec(a, "--dir="@))
}

pub struct Directory;

impl Directory {
    /// The arguments that mention the `--dir=` flag, kept whole, in order.
    pub fn find_directory_arguments(args: &Vec<String>) -> (r: Vec<String>)
        ensures
            views_of(r@) == filter_containing(views_of(args@), "--dir="@),
    {
        let ghost vs = views_of(args@);
        let ghost pat = "--dir="@;
        let mut r: Vec<String> = Vec::new();
        proof {
            assert(views_of(r@) =~= Seq::<Seq<char>>::empty());
            assert(vs.subrange(0, vs.len() as int) =~= vs);
            assert(Seq::<Seq<char>>::empty() + filter_containing(vs, pat) =~= filter_containing(
                vs,
                pat,
            ));
        }
        let mut i: usize = 0;
        while i < args.len()
            invariant
                vs == views_of(args@),
                pat == "--dir="@,
                i <= vs.len(),
                filter_containing(vs, pat) == views_of(r@) + filter_containing(
                    vs.subrange(i as int, vs.len() as int),
                    pat,
                ),
            decreases vs.len() - i,
        {
            let ghost before = views_of(r@);
            let ghost mid = vs.subrange(i as int, vs.len() as int);
            proof {
                assert(mid[0] == vs[i as int]);
                assert(mid.subrange(1, mid.len() as int) =~= vs.subrange(i + 1, vs.len() as int));
            }
            if contains_str(args[i].as_str(), "--dir=") {
                let kept = args[i].clone();
                r.push(kept);
                proof {
                    assert(views_of(r@) =~= before + seq![vs[i as int]]);
                    assert(before + filter_containing(mid, pat) =~= (before + seq![vs[i as int]])
                        + filter_containing(vs.subrange(i + 1, vs.len() as int), pat));
                }
            }
            i += 1;
        }
        proof {
            assert(vs.subrange(i as int, vs.len() as int) =~= Seq::<Seq<char>>::empty());
            assert(views_of(r@) + filter_containing(Seq::<Seq<char>>::empty(), pat) =~= views_of(
                r@,
            ));
        }
        r
    }

    /// Each argument with its `--dir=` flag stripped to the directory it
    /// names.
    pub fn get_directories_as_strings(args: &Vec<String>) -> (r: Vec<String>)
        ensures
            views_of(r@) == stripped_dir_flags(views_of(args@)),
    {
        let mut r: Vec<String> = Vec::new();
        let mut i: usize = 0;
        while i < args.len()
            invariant
                i <= args@.len(),
                r@.len() == i,
                forall|j: int|
                    0 <= j < i ==> (#[trigger] r@[j])@ == remove_all_spec(args@[j]@, "--dir="@),
            decreases args@.len() - i,
        {
            let stripped = Self::convert_directory_flag_into_string(&args[i]);
            r.push(stripped);
            i += 1;
        }
        proof {
            assert forall|j: int| 0 <= j < r@.len() implies #[trigger] views_of(r@)[j]
                == stripped_dir_flags(views_of(args@))[j] by {
                assert(r@[j]@ == remove_all_spec(args@[j]@, "--dir="@));
            }
            assert(views_of(r@) =~= stripped_dir_flags(views_of(args@)));
        }
        r
    }

    /// One directory flag stripped to the directory it names.
    pub fn convert_directory_flag_into_string(directory_flag: &String) -> (r: String)
        ensures
            r@ == remove_all_spec(directory_flag@, "--dir="@),
    {
        let long_directory_flag_prefix = "--dir=";
        remove_all(directory_flag.as_str(), long_directory_flag_prefix)
    }
}

} // verus!

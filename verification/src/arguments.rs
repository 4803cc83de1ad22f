//! Reading configuration out of the command-line arguments the process was
//! started with. Every function takes the argument vector as a value, so the
//! selection logic is independent of how the process obtained it.

use vstd::prelude::*;

use crate::text::{
    contains_str, contains_sub, digits_val, parse_usize, parses_as_usize, remove_all,
    remove_all_spec, unsigned_digits_of, views_of,
};

verus! {

/// The arguments that mention `pat`, kept whole, in order.
pub open spec fn filter_containing(args: Seq<Seq<char>>, pat: Seq<char>) -> Seq<Seq<char>>
    decreases args.len(),
{
    if args.len() == 0 {
        Seq::empty()
    } else {
        let rest = filter_containing(args.subrange(1, args.len() as int), pat);
        if contains_sub(args[0], pat) {
            seq![args[0]] + rest
        } else {
            rest
        }
    }
}

/// The arguments that mention `pat`, each with every occurrence of `pat`
/// stripped, in order.
pub open spec fn search_spec(args: Seq<Seq<char>>, pat: Seq<char>) -> Seq<Seq<char>>
    decreases args.len(),
{
    if args.len() == 0 {
        Seq::empty()
    } else {
        let rest = search_spec(args.subrange(1, args.len() as int), pat);
        if contains_sub(args[0], pat) {
            seq![remove_all_spec(args[0], pat)] + rest
        } else {
            rest
        }
    }
}

/// The port configured by the first `--port=` argument, when it carries a
/// number that fits; everything else gives the default port.
pub open spec fn port_spec(args: Seq<Seq<char>>) -> usize {
    let port_args = search_spec(args, "--port="@);
    if port_args.len() == 0 {
        8080
    } else if parses_as_usize(port_args[0]) {
        digits_val(unsigned_digits_of(port_args[0])) as usize
    } else {
        8080
    }
}

/// The host configured by the first `--host=` argument, or the default.
pub open spec fn host_spec(args: Seq<Seq<char>>) -> Seq<char> {
    let host_args = search_spec(args, "--host="@);
    if host_args.len() == 0 {
        "127.0.0.1"@
    } else {
        host_args[0]
    }
}

/// The cache-control policy: the configured max-age spliced into the fixed
/// policy, or the default policy.
pub open spec fn cache_control_spec(args: Seq<Seq<char>>) -> Seq<char> {
    let cache_args = search_spec(args, "--cache-control="@);
    if cache_args.len() == 0 {
        "private, max-age=259200, must-revalidate"@
    } else {
        "private, max-age="@ + cache_args[0] + ", must-revalidate"@
    }
}

/// A functional struct whose associated functions select configuration out
/// of the command-line arguments.
pub struct Arguments;

impl Arguments {
    /// The arguments that mention `flag_pattern`, each with the pattern
    /// stripped, so that `--port=3000` yields `3000`.
    pub fn search_cli_args_on_pattern(args: &Vec<String>, flag_pattern: &str) -> (r: Vec<String>)
        ensures
            views_of(r@) == search_spec(views_of(args@), flag_pattern@),
    {
        let ghost vs = views_of(args@);
        let mut r: Vec<String> = Vec::new();
        proof {
            assert(views_of(r@) =~= Seq::<Seq<char>>::empty());
            assert(vs.subrange(0, vs.len() as int) =~= vs);
            assert(Seq::<Seq<char>>::empty() + search_spec(vs, flag_pattern@) =~= search_spec(
                vs,
                flag_pattern@,
            ));
        }
        let mut i: usize = 0;
        while i < args.len()
            invariant
                vs == views_of(args@),
                i <= vs.len(),
                search_spec(vs, flag_pattern@) == views_of(r@) + search_spec(
                    vs.subrange(i as int, vs.len() as int),
                    flag_pattern@,
                ),
            decreases vs.len() - i,
        {
            let ghost before = views_of(r@);
            let ghost mid = vs.subrange(i as int, vs.len() as int);
            proof {
                assert(mid[0] == vs[i as int]);
                assert(mid.subrange(1, mid.len() as int) =~= vs.subrange(i + 1, vs.len() as int));
            }
            if contains_str(args[i].as_str(), flag_pattern) {
                let stripped = remove_all(args[i].as_str(), flag_pattern);
                r.push(stripped);
                proof {
                    assert(views_of(r@) =~= before + seq![
                        remove_all_spec(vs[i as int], flag_pattern@),
                    ]);
                    assert(before + search_spec(mid, flag_pattern@) =~= (before + seq![
                        remove_all_spec(vs[i as int], flag_pattern@),
                    ]) + search_spec(vs.subrange(i + 1, vs.len() as int), flag_pattern@));
                }
            }
            i += 1;
        }
        proof {
            assert(vs.subrange(i as int, vs.len() as int) =~= Seq::<Seq<char>>::empty());
            assert(views_of(r@) + search_spec(Seq::<Seq<char>>::empty(), flag_pattern@)
                =~= views_of(r@));
        }
        r
    }

    /// The directory arguments, each `--dir=` flag stripped to its path.
    pub fn find_directory_arguments(args: &Vec<String>) -> (r: Vec<String>)
        ensures
            views_of(r@) == search_spec(views_of(args@), "--dir="@),
    {
        Self::search_cli_args_on_pattern(args, "--dir=")
    }

    /// The configured port, or the default when none is given or the value
    /// does not parse as a number.
    pub fn find_port_argument_or_get_default(args: &Vec<String>) -> (r: usize)
        ensures
            r == port_spec(views_of(args@)),
    {
        let default_port: usize = 8080;
        let port_args = Self::search_cli_args_on_pattern(args, "--port=");
        if port_args.len() == 0 {
            default_port
        } else {
            match parse_usize(port_args[0].as_str()) {
                Some(port) => port,
                None => default_port,
            }
        }
    }

    /// The configured host, or the default when none is given.
    pub fn find_host_argument_or_get_default(args: &Vec<String>) -> (r: String)
        ensures
            r@ == host_spec(views_of(args@)),
    {
        let default_host = String::from_str("127.0.0.1");
        let host_args = Self::search_cli_args_on_pattern(args, "--host=");
        if host_args.len() == 0 {
            default_host
        } else {
            host_args[0].clone()
        }
    }

    /// The configured CORS origin: `true` and `*` both mean every origin;
    /// any other value names one; none means the header is not sent.
    pub fn find_cors_argument_or_get_default(args: &Vec<String>) -> (r: Option<String>)
        ensures
            ({
                let cors_args = search_spec(views_of(args@), "--cors="@);
                match r {
                    Some(v) => cors_args.len() > 0 && if cors_args[0] == "true"@ || cors_args[0]
                        == "*"@ {
                        v@ == "*"@
                    } else {
                        v@ == cors_args[0]
                    },
                    None => cors_args.len() == 0,
                }
            }),
    {
        let cors_arguments = Self::search_cli_args_on_pattern(args, "--cors=");
        if cors_arguments.len() == 0 {
            return None;
        }
        let cors_argument = &cors_arguments[0];
        let is_all = crate::text::str_eq(cors_argument.as_str(), "true") || crate::text::str_eq(
            cors_argument.as_str(),
            "*",
        );
        if is_all {
            return Some(String::from_str("*"));
        }
        Some(cors_argument.clone())
    }

    /// Whether `--no-compression` was given: the marker that disables gzip
    /// delivery globally.
    pub fn find_compression_argument_or_get_default(args: &Vec<String>) -> (r: Option<()>)
        ensures
            r is Some <==> search_spec(views_of(args@), "--no-compression"@).len() > 0,
    {
        let compression_arguments = Self::search_cli_args_on_pattern(args, "--no-compression");
        if compression_arguments.len() > 0 {
            Some(())
        } else {
            None
        }
    }

    /// The cache-control policy: the configured max-age spliced into the
    /// fixed policy, or the default policy.
    pub fn find_cache_control_argument_or_get_default(args: &Vec<String>) -> (r: String)
        ensures
            r@ == cache_control_spec(views_of(args@)),
    {
        let cache_control_arguments = Self::search_cli_args_on_pattern(args, "--cache-control=");
        if cache_control_arguments.len() > 0 {
            let mut policy = String::from_str("private, max-age=");
            policy.append(cache_control_arguments[0].as_str());
            policy.append(", must-revalidate");
            policy
        } else {
            String::from_str("private, max-age=259200, must-revalidate")
        }
    }
}

} // verus!

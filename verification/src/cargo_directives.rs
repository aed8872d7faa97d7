//! The build directives the extensions emit for the surrounding build
//! system: link-search lines, each with its run-time search companion, and
//! link-library lines.

use vstd::prelude::*;

verus! {

/// The two directive lines per search path — the search path itself and the
/// run-time search entry — for the first `n` paths.
pub open spec fn cargo_search_lines(paths: Seq<Seq<char>>, n: int) -> Seq<Seq<char>>
    decreases n,
{
    if n <= 0 {
        Seq::empty()
    } else {
        cargo_search_lines(paths, n - 1) + seq![
            "cargo:rustc-link-search=native="@ + paths[n - 1],
            "cargo:rustc-link-arg=-Wl,-rpath,"@ + paths[n - 1],
        ]
    }
}

/// The directive line per linked library, for the first `n` names.
pub open spec fn cargo_lib_lines(libs: Seq<Seq<char>>, n: int) -> Seq<Seq<char>>
    decreases n,
{
    if n <= 0 {
        Seq::empty()
    } else {
        cargo_lib_lines(libs, n - 1) + seq!["cargo:rustc-link-lib="@ + libs[n - 1]]
    }
}

/// Appends the search and run-time search directive lines of every path.
pub fn append_cargo_search_lines(out: &mut Vec<String>, paths: &Vec<String>)
    ensures
        final(out).deep_view() == old(out).deep_view() + cargo_search_lines(
            paths.deep_view(),
            paths.deep_view().len() as int,
        ),
{
    let mut i: usize = 0;
    while i < paths.len()
        invariant
            i <= paths@.len(),
            out.deep_view() == old(out).deep_view() + cargo_search_lines(
                paths.deep_view(),
                i as int,
            ),
        decreases paths@.len() - i,
    {
        let ghost pre = out.deep_view();
        let ghost prevv = out@;
        let mut search = String::from_str("cargo:rustc-link-search=native=");
        search.append(paths[i].as_str());
        let mut rpath = String::from_str("cargo:rustc-link-arg=-Wl,-rpath,");
        rpath.append(paths[i].as_str());
        let ghost sview = search@;
        let ghost rview = rpath@;
        out.push(search);
        out.push(rpath);
        proof {
            assert(paths.deep_view()[i as int] == paths@[i as int]@);
            let p = paths.deep_view()[i as int];
            assert(cargo_search_lines(paths.deep_view(), i + 1 as int) == cargo_search_lines(
                paths.deep_view(),
                i as int,
            ) + seq![
                "cargo:rustc-link-search=native="@ + p,
                "cargo:rustc-link-arg=-Wl,-rpath,"@ + p,
            ]);
            let target = old(out).deep_view() + cargo_search_lines(
                paths.deep_view(),
                i + 1 as int,
            );
            assert(pre.len() == prevv.len());
            assert(out@.len() == prevv.len() + 2);
            assert(pre == old(out).deep_view() + cargo_search_lines(paths.deep_view(), i as int));
            assert(target.len() == out@.len());
            assert forall|k: int| 0 <= k < out@.len() implies out.deep_view()[k] == target[k] by {
                if k < prevv.len() {
                    assert(out@[k] == prevv[k]);
                    assert(pre[k] == target[k]);
                } else if k == prevv.len() {
                    assert(out@[k]@ == sview);
                } else {
                    assert(out@[k]@ == rview);
                }
            }
            assert(out.deep_view() =~= target);
        }
        i = i + 1;
    }
}

/// Appends the link directive line of every library name.
pub fn append_cargo_lib_lines(out: &mut Vec<String>, libs: &Vec<String>)
    ensures
        final(out).deep_view() == old(out).deep_view() + cargo_lib_lines(
            libs.deep_view(),
            libs.deep_view().len() as int,
        ),
{
    let mut i: usize = 0;
    while i < libs.len()
        invariant
            i <= libs@.len(),
            out.deep_view() == old(out).deep_view() + cargo_lib_lines(libs.deep_view(), i as int),
        decreases libs@.len() - i,
    {
        let ghost pre = out.deep_view();
        let ghost prevv = out@;
        let mut line = String::from_str("cargo:rustc-link-lib=");
        line.append(libs[i].as_str());
        let ghost lview = line@;
        out.push(line);
        proof {
            assert(libs.deep_view()[i as int] == libs@[i as int]@);
            let l = libs.deep_view()[i as int];
            assert(cargo_lib_lines(libs.deep_view(), i + 1 as int) == cargo_lib_lines(
                libs.deep_view(),
                i as int,
            ) + seq!["cargo:rustc-link-lib="@ + l]);
            let target = old(out).deep_view() + cargo_lib_lines(libs.deep_view(), i + 1 as int);
            assert(pre.len() == prevv.len());
            assert(out@.len() == prevv.len() + 1);
            assert(pre == old(out).deep_view() + cargo_lib_lines(libs.deep_view(), i as int));
            assert(target.len() == out@.len());
            assert forall|k: int| 0 <= k < out@.len() implies out.deep_view()[k] == target[k] by {
                if k < prevv.len() {
                    assert(out@[k] == prevv[k]);
                    assert(pre[k] == target[k]);
                } else {
                    assert(out@[k]@ == lview);
                }
            }
            assert(out.deep_view() =~= target);
        }
        i = i + 1;
    }
}

} // verus!

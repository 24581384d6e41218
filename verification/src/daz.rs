//! Resolution of DAZ asset references: a reference url is percent-decoded,
//! split at `#` into a file location and a fragment, and the set of
//! distinct referenced files is collected.

use vstd::prelude::*;

use crate::dsf::DSF;
use crate::duf::DUF;

verus! {

/// A component file is either a surface file or a user file.
#[derive(Debug)]
pub enum DazComponentFile {
    Dsf(DSF),
    Duf(DUF),
}

/// The two component file kinds, as named by a path's extension.
#[derive(Clone, Copy, Debug, PartialEq, Eq, Structural)]
pub enum DazFileKind {
    Dsf,
    Duf,
}

/// What `urlencoding::decode` returns: `Some` of the decoded characters on
/// success, `None` where decoding fails — a pure function of the input
/// characters.
pub uninterp spec fn url_decoded(s: Seq<char>) -> Option<Seq<char>>;

/// The input has no percent sign, so decoding cannot change or refuse it.
pub open spec fn percent_free(u: Seq<char>) -> bool {
    forall|i: int| 0 <= i < u.len() ==> u[i] != '%'
}

/// Relies on urlencoding::decode: it percent-decodes the string, failing
/// only when the decoded bytes are not UTF-8; its result depends on the
/// characters alone, and a string without a percent sign comes back
/// unchanged (the decoder returns its input borrowed).
#[verifier::external_body]
fn decode_url(s: &str) -> (r: Option<String>)
    ensures
        r is Some <==> url_decoded(s@) is Some,
        r is Some ==> url_decoded(s@) == Some(r.unwrap()@),
        percent_free(s@) ==> r is Some && r.unwrap()@ == s@,
{
    match urlencoding::decode(s) {
        Ok(decoded) => Some(decoded.into_owned()),
        Err(_) => None,
    }
}

/// The part of a decoded url before its first `#`, or all of it.
pub open spec fn location_of(u: Seq<char>) -> Seq<char>
    decreases u.len(),
{
    if u.len() == 0 {
        Seq::empty()
    } else if u[0] == '#' {
        Seq::empty()
    } else {
        seq![u[0]] + location_of(u.skip(1))
    }
}

/// The part of a decoded url between its first `#` and the following `#`
/// or the end; `None` when the url has no `#` at all.
pub open spec fn fragment_of(u: Seq<char>) -> Option<Seq<char>>
    decreases u.len(),
{
    if u.len() == 0 {
        None
    } else if u[0] == '#' {
        Some(location_of(u.skip(1)))
    } else {
        fragment_of(u.skip(1))
    }
}

proof fn lemma_split_scan(u: Seq<char>, i: int)
    requires
        0 <= i <= u.len(),
        forall|k: int| 0 <= k < i ==> u[k] != '#',
    ensures
        i == u.len() ==> location_of(u) =~= u && fragment_of(u) is None,
        i < u.len() && u[i] == '#' ==> location_of(u) =~= u.take(i) && fragment_of(u) == Some(
            location_of(u.skip(i + 1)),
        ),
    decreases i,
{
    if i == 0 {
        if u.len() > 0 && u[0] == '#' {
            assert(u.take(0) =~= Seq::<char>::empty());
        }
    } else {
        lemma_split_scan(u.skip(1), i - 1);
        assert(u[0] != '#');
        if i == u.len() {
            assert(u.skip(1).len() == i - 1);
            assert(location_of(u) == seq![u[0]] + location_of(u.skip(1)));
            assert(seq![u[0]] + u.skip(1) =~= u);
        } else if u[i] == '#' {
            assert(u.skip(1)[i - 1] == u[i]);
            assert(location_of(u.skip(1)) =~= u.skip(1).take(i - 1));
            assert(seq![u[0]] + u.skip(1).take(i - 1) =~= u.take(i));
            assert(u.skip(1).skip(i) =~= u.skip(i + 1));
        }
    }
}

/// Split an already decoded url at its first `#` into the file location
/// and the optional fragment (the part up to the next `#` or the end).
pub fn split_url(decoded: &str) -> (r: (String, Option<String>))
    ensures
        r.0@ == location_of(decoded@),
        match r.1 {
            Some(f) => fragment_of(decoded@) == Some(f@),
            None => fragment_of(decoded@) is None,
        },
{
    let n = decoded.unicode_len();
    let mut i: usize = 0;
    while i < n && decoded.get_char(i) != '#'
        invariant
            i <= n,
            n == decoded@.len(),
            forall|k: int| 0 <= k < i ==> decoded@[k] != '#',
        decreases n - i,
    {
        i = i + 1;
    }
    proof {
        lemma_split_scan(decoded@, i as int);
    }
    let location = String::from_str(decoded.substring_char(0, i));
    proof {
        assert(decoded@.subrange(0, i as int) =~= decoded@.take(i as int));
        if i == n {
            assert(decoded@.take(i as int) =~= decoded@);
        }
    }
    if i == n {
        return (location, None);
    }
    let frag_start = i + 1;
    let mut j: usize = frag_start;
    while j < n && decoded.get_char(j) != '#'
        invariant
            frag_start <= j <= n,
            n == decoded@.len(),
            forall|k: int| frag_start <= k < j ==> decoded@[k] != '#',
        decreases n - j,
    {
        j = j + 1;
    }
    let fragment = String::from_str(decoded.substring_char(frag_start, j));
    proof {
        let rest = decoded@.skip(frag_start as int);
        assert forall|k: int| 0 <= k < j - frag_start implies rest[k] != '#' by {
            assert(rest[k] == decoded@[k + frag_start]);
        }
        lemma_split_scan(rest, j - frag_start as int);
        if j < n {
            assert(rest[j - frag_start as int] == decoded@[j as int]);
        }
        assert(decoded@.subrange(frag_start as int, j as int) =~= rest.take(
            j - frag_start as int,
        ));
        if j - frag_start == rest.len() {
            assert(rest.take(j - frag_start as int) =~= rest);
        }
    }
    (location, Some(fragment))
}

/// Percent-decode a reference url and split it into the file location and
/// the optional fragment. `None` exactly when decoding refuses the url; a
/// url without a percent sign always parses, into its own characters.
pub fn parse_url(url: &String) -> (r: Option<(String, Option<String>)>)
    ensures
        r is Some <==> url_decoded(url@) is Some,
        r matches Some(p) ==> {
            &&& p.0@ == location_of(url_decoded(url@).unwrap())
            &&& match p.1 {
                Some(f) => fragment_of(url_decoded(url@).unwrap()) == Some(f@),
                None => fragment_of(url_decoded(url@).unwrap()) is None,
            }
        },
        percent_free(url@) ==> url_decoded(url@) == Some(url@),
{
    match decode_url(url.as_str()) {
        Some(decoded) => Some(split_url(decoded.as_str())),
        None => None,
    }
}

/// `u` is the location of some input url that decodes successfully.
pub open spec fn is_some_location(u: Seq<char>, files: Seq<String>) -> bool {
    exists|i: int|
        0 <= i < files.len() && url_decoded(#[trigger] files[i]@) is Some && u == location_of(
            url_decoded(files[i]@).unwrap(),
        )
}

/// `locations` already holds a string with exactly the characters `u`.
pub open spec fn has_location(locations: Seq<String>, u: Seq<char>) -> bool {
    exists|j: int| 0 <= j < locations.len() && locations[j]@ == u
}

fn contains_string(v: &Vec<String>, s: &String) -> (b: bool)
    ensures
        b == has_location(v@, s@),
{
    let mut i: usize = 0;
    while i < v.len()
        invariant
            i <= v@.len(),
            forall|j: int| 0 <= j < i ==> v@[j]@ != s@,
        decreases v@.len() - i,
    {
        if v[i].eq(s) {
            return true;
        }
        i = i + 1;
    }
    false
}

/// The distinct file locations among the given reference urls, in order of
/// first appearance. Each entry is the location part of some input url
/// that decodes successfully; no location appears twice; and every input
/// url that decodes successfully has its location in the result.
pub fn unique_files(ref_files: Vec<String>) -> (r: Vec<String>)
    ensures
        forall|x: int, y: int| 0 <= x < y < r@.len() ==> r@[x]@ != r@[y]@,
        forall|j: int|
            0 <= j < r@.len() ==> is_some_location(#[trigger] r@[j]@, ref_files@),
        forall|i: int|
            0 <= i < ref_files@.len() && url_decoded(#[trigger] ref_files@[i]@) is Some
                ==> has_location(r@, location_of(url_decoded(ref_files@[i]@).unwrap())),
        forall|i: int|
            0 <= i < ref_files@.len() && percent_free(#[trigger] ref_files@[i]@) ==> url_decoded(
                ref_files@[i]@,
            ) == Some(ref_files@[i]@),
{
    let mut unique: Vec<String> = Vec::new();
    let mut k: usize = 0;
    while k < ref_files.len()
        invariant
            k <= ref_files@.len(),
            forall|x: int, y: int| 0 <= x < y < unique@.len() ==> unique@[x]@ != unique@[y]@,
            forall|j: int|
                0 <= j < unique@.len() ==> is_some_location(#[trigger] unique@[j]@, ref_files@),
            forall|i: int|
                0 <= i < k && url_decoded(#[trigger] ref_files@[i]@) is Some ==> has_location(
                    unique@,
                    location_of(url_decoded(ref_files@[i]@).unwrap()),
                ),
            forall|i: int|
                0 <= i < k && percent_free(#[trigger] ref_files@[i]@) ==> url_decoded(
                    ref_files@[i]@,
                ) == Some(ref_files@[i]@),
        decreases ref_files@.len() - k,
    {
        let ghost u0 = unique@;
        match parse_url(&ref_files[k]) {
            Some((location, _fragment)) => {
                if !contains_string(&unique, &location) {
                    unique.push(location);
                    proof {
                        assert forall|i: int|
                            0 <= i < k + 1 && url_decoded(
                                #[trigger] ref_files@[i]@,
                            ) is Some implies has_location(
                            unique@,
                            location_of(url_decoded(ref_files@[i]@).unwrap()),
                        ) by {
                            if i < k {
                                let loc = location_of(url_decoded(ref_files@[i]@).unwrap());
                                assert(has_location(u0, loc));
                                let j = choose|j: int| 0 <= j < u0.len() && u0[j]@ == loc;
                                assert(unique@[j]@ == loc);
                            } else {
                                assert(unique@[unique@.len() - 1]@ == location_of(
                                    url_decoded(ref_files@[i]@).unwrap(),
                                ));
                            }
                        }
                        assert forall|j: int|
                            0 <= j < unique@.len() implies is_some_location(
                            #[trigger] unique@[j]@,
                            ref_files@,
                        ) by {
                            if j < u0.len() {
                                assert(unique@[j]@ == u0[j]@);
                                assert(is_some_location(u0[j]@, ref_files@));
                            } else {
                                assert(unique@[j]@ == location_of(
                                    url_decoded(ref_files@[k as int]@).unwrap(),
                                ));
                            }
                        }
                    }
                } else {
                    proof {
                        assert forall|i: int|
                            0 <= i < k + 1 && url_decoded(
                                #[trigger] ref_files@[i]@,
                            ) is Some implies has_location(
                            unique@,
                            location_of(url_decoded(ref_files@[i]@).unwrap()),
                        ) by {
                            if i == k {
                                assert(has_location(unique@, location@));
                            }
                        }
                    }
                }
            },
            None => {
            },
        }
        k = k + 1;
    }
    unique
}

/// The component kind a path's extension names: `dsf` and `duf` files are
/// the only supported component files.
pub fn daz_kind_for_extension(extension: &str) -> (r: Option<DazFileKind>)
    ensures
        r == Some(DazFileKind::Dsf) <==> extension@ == "dsf"@,
        r == Some(DazFileKind::Duf) <==> extension@ == "duf"@,
        r is None <==> extension@ != "dsf"@ && extension@ != "duf"@,
{
    proof {
        reveal_strlit("dsf");
        reveal_strlit("duf");
    }
    let n = extension.unicode_len();
    if n != 3 {
        return None;
    }
    let c0 = extension.get_char(0);
    let c1 = extension.get_char(1);
    let c2 = extension.get_char(2);
    if c0 == 'd' && c1 == 's' && c2 == 'f' {
        proof {
            assert(extension@ =~= "dsf"@);
        }
        Some(DazFileKind::Dsf)
    } else if c0 == 'd' && c1 == 'u' && c2 == 'f' {
        proof {
            assert(extension@ =~= "duf"@);
        }
        Some(DazFileKind::Duf)
    } else {
        proof {
            assert(extension@ != "dsf"@);
            assert(extension@ != "duf"@);
        }
        None
    }
}

} // verus!

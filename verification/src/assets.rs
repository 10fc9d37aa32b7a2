//! The static console: its HTML pages carry the service's name and address.

use vstd::prelude::*;

use crate::text::{chars_eq, chars_of, push_all, string_of, sub_chars};

verus! {

/// `s` holds `p` somewhere.
pub open spec fn contains_text(s: Seq<char>, p: Seq<char>) -> bool {
    exists|i: int| 0 <= i <= s.len() - p.len() && #[trigger] s.subrange(i, i + p.len()) == p
}

fn contains_at(s: &Vec<char>, p: &Vec<char>, i: usize) -> (r: bool)
    requires
        i + p@.len() <= s@.len(),
    ensures
        r == (s@.subrange(i as int, i + p@.len()) == p@),
{
    assert(s@.len() == s.len());
    let piece = sub_chars(s.as_slice(), i, i + p.len());
    chars_eq(piece.as_slice(), p.as_slice())
}

/// `str::contains` of a text.
pub fn contains_str(s: &str, p: &str) -> (r: bool)
    ensures
        r == contains_text(s@, p@),
{
    let sc = chars_of(s);
    let pc = chars_of(p);
    if pc.len() > sc.len() {
        return false;
    }
    let last = sc.len() - pc.len();
    let mut i: usize = 0;
    while i <= last
        invariant
            pc@.len() <= sc@.len(),
            last == sc@.len() - pc@.len(),
            sc@ == s@,
            pc@ == p@,
            forall|k: int| 0 <= k < i ==> #[trigger] sc@.subrange(k, k + pc@.len()) != pc@,
        decreases sc@.len() - i,
    {
        if contains_at(&sc, &pc, i) {
            return true;
        }
        if i == last {
            return false;
        }
        i = i + 1;
    }
    false
}

/// Whether a fetched console asset is rewritten: an HTML page that was
/// found.
pub fn rewrites_page(content_type: &str, status: u16) -> (r: bool)
    ensures
        r == (contains_text(content_type@, "text/html"@) && status < 400),
{
    contains_str(content_type, "text/html") && status < 400
}

/// `str::replace`: every occurrence of `from`, left to right and not
/// overlapping, replaced by `to`.
pub open spec fn replace_all(s: Seq<char>, from: Seq<char>, to: Seq<char>) -> Seq<char>
    decreases s.len(),
{
    if s.len() == 0 {
        s
    } else if from.len() > 0 && from.len() <= s.len() && s.subrange(0, from.len() as int) == from {
        to + replace_all(s.skip(from.len() as int), from, to)
    } else {
        seq![s[0]] + replace_all(s.skip(1), from, to)
    }
}

pub fn replace_str(s: &str, from: &str, to: &str) -> (r: String)
    requires
        from@.len() > 0,
    ensures
        r@ == replace_all(s@, from@, to@),
{
    let sc = chars_of(s);
    let fc = chars_of(from);
    let tc = chars_of(to);
    let mut out: Vec<char> = Vec::new();
    let mut i: usize = 0;
    assert(sc@.skip(0) =~= sc@);
    while i < sc.len()
        invariant
            i <= sc@.len(),
            sc@ == s@,
            fc@ == from@,
            tc@ == to@,
            fc@.len() > 0,
            out@ + replace_all(sc@.skip(i as int), fc@, tc@) == replace_all(sc@, fc@, tc@),
        decreases sc@.len() - i,
    {
        let ghost rest = sc@.skip(i as int);
        if fc.len() <= sc.len() - i && contains_at(&sc, &fc, i) {
            assert(rest.subrange(0, fc@.len() as int) =~= sc@.subrange(i as int, i + fc@.len()));
            assert(rest.skip(fc@.len() as int) =~= sc@.skip(i + fc@.len()));
            let ghost prev = out@;
            push_all(&mut out, tc.as_slice());
            assert(out@ + replace_all(sc@.skip(i + fc@.len()), fc@, tc@) =~= prev + replace_all(
                rest,
                fc@,
                tc@,
            ));
            i = i + fc.len();
        } else {
            proof {
                if fc@.len() <= rest.len() {
                    assert(rest.subrange(0, fc@.len() as int) =~= sc@.subrange(
                        i as int,
                        i + fc@.len(),
                    ));
                }
            }
            assert(rest.skip(1) =~= sc@.skip(i + 1));
            assert(rest[0] == sc@[i as int]);
            let ghost prev = out@;
            out.push(sc[i]);
            assert(out@ + replace_all(sc@.skip(i + 1), fc@, tc@) =~= prev + replace_all(
                rest,
                fc@,
                tc@,
            ));
            i = i + 1;
        }
    }
    assert(sc@.skip(i as int) =~= Seq::<char>::empty());
    assert(out@ + Seq::<char>::empty() =~= out@);
    string_of(&out)
}

/// The address the console's pages were written with.
pub const DEPLOYED_URL: &'static str = "https://cloudflare-auth.veegn.workers.dev";

/// A console page with the service's name and address filled in: the
/// `{{APP_NAME}}` and `{{SERVICE_URL}}` placeholders, then the address the
/// pages were written with.
pub open spec fn spec_brand_page(html: Seq<char>, name: Seq<char>, service: Seq<char>) -> Seq<
    char,
> {
    replace_all(
        replace_all(replace_all(html, "{{APP_NAME}}"@, name), "{{SERVICE_URL}}"@, service),
        DEPLOYED_URL@,
        service,
    )
}

pub fn brand_page(html: &str, name: &str, service: &str) -> (r: String)
    ensures
        r@ == spec_brand_page(html@, name@, service@),
{
    proof {
        reveal_strlit("{{APP_NAME}}");
        reveal_strlit("{{SERVICE_URL}}");
        reveal_strlit("https://cloudflare-auth.veegn.workers.dev");
    }
    let a = replace_str(html, "{{APP_NAME}}", name);
    let b = replace_str(a.as_str(), "{{SERVICE_URL}}", service);
    replace_str(b.as_str(), DEPLOYED_URL, service)
}

} // verus!

use vstd::prelude::*;
use vstd::string::StrSliceExecFns;

verus! {

/// The characters of a string, in order.
pub fn chars_of(s: &str) -> (r: Vec<char>)
    ensures
        r@ == s@,
{
    let n = s.unicode_len();
    let mut r: Vec<char> = Vec::new();
    let mut i: usize = 0;
    while i < n
        invariant
            n == s@.len(),
            i <= n,
            r@ == s@.take(i as int),
        decreases n - i,
    {
        let c = s.get_char(i);
        r.push(c);
        i = i + 1;
        assert(r@ =~= s@.take(i as int));
    }
    assert(s@.take(n as int) =~= s@);
    r
}

/// Whether `prefix` is where `s` starts.
pub fn starts_with_chars(s: &Vec<char>, prefix: &Vec<char>) -> (r: bool)
    ensures
        r == prefix@.is_prefix_of(s@),
{
    if prefix.len() > s.len() {
        return false;
    }
    let mut i: usize = 0;
    while i < prefix.len()
        invariant
            prefix@.len() <= s@.len(),
            i <= prefix@.len(),
            forall|j: int| 0 <= j < i ==> prefix@[j] == s@[j],
        decreases prefix@.len() - i,
    {
        if prefix[i] != s[i] {
            return false;
        }
        i = i + 1;
    }
    true
}

/// Whether the two character sequences are equal.
pub fn same_chars(a: &Vec<char>, b: &Vec<char>) -> (r: bool)
    ensures
        r == (a@ == b@),
{
    if a.len() != b.len() {
        return false;
    }
    let r = starts_with_chars(a, b);
    proof {
        if r {
            assert(a@ =~= b@);
        }
    }
    r
}

/// Whether `c` holds no '/' from `lo` up to `hi`.
pub fn no_slash_in(c: &Vec<char>, lo: usize, hi: usize) -> (r: bool)
    requires
        lo <= hi <= c@.len(),
    ensures
        r == !c@.subrange(lo as int, hi as int).contains('/'),
{
    let mut i: usize = lo;
    while i < hi
        invariant
            lo <= i <= hi <= c@.len(),
            forall|j: int| lo <= j < i ==> c@[j] != '/',
        decreases hi - i,
    {
        if c[i] == '/' {
            assert(c@.subrange(lo as int, hi as int)[i - lo] == '/');
            return false;
        }
        i = i + 1;
    }
    proof {
        if c@.subrange(lo as int, hi as int).contains('/') {
            let k = choose|k: int|
                0 <= k < hi - lo && #[trigger] c@.subrange(lo as int, hi as int)[k] == '/';
            assert(c@[lo + k] == '/');
        }
    }
    true
}

/// `s` with every backslash turned into a forward slash.
pub open spec fn forward_slashes(s: Seq<char>) -> Seq<char> {
    s.map_values(|ch: char| if ch == '\\' { '/' } else { ch })
}

/// Relies on std's `String::push`: appends one character at the end.
#[verifier::external_body]
fn push_char(s: &mut String, ch: char)
    ensures
        final(s)@ == old(s)@.push(ch),
{
    s.push(ch)
}

/// Replaces each backslash of a path with a forward slash.
pub fn normalize_separators(path: &str) -> (r: String)
    ensures
        r@ == forward_slashes(path@),
{
    let c = chars_of(path);
    let mut r = String::new();
    let mut i: usize = 0;
    while i < c.len()
        invariant
            c@ == path@,
            i <= c@.len(),
            r@ == forward_slashes(path@).take(i as int),
        decreases c@.len() - i,
    {
        let ch = if c[i] == '\\' {
            '/'
        } else {
            c[i]
        };
        push_char(&mut r, ch);
        i = i + 1;
        assert(r@ =~= forward_slashes(path@).take(i as int));
    }
    assert(forward_slashes(path@).take(i as int) =~= forward_slashes(path@));
    r
}

} // verus!

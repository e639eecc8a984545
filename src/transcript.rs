use vstd::prelude::*;

use crate::text::{chars_of, string_from_chars};

verus! {

/// Unicode `White_Space`, the set that `str::trim` removes.
pub open spec fn is_ws(c: char) -> bool {
    let u = c as u32;
    (0x09 <= u && u <= 0x0d) || u == 0x20 || u == 0x85 || u == 0xa0 || u == 0x1680 || (0x2000 <= u && u
        <= 0x200a) || u == 0x2028 || u == 0x2029 || u == 0x202f || u == 0x205f || u == 0x3000
}

fn is_whitespace_char(c: char) -> (r: bool)
    ensures
        r == is_ws(c),
{
    let u = c as u32;
    (0x09 <= u && u <= 0x0d) || u == 0x20 || u == 0x85 || u == 0xa0 || u == 0x1680 || (0x2000 <= u && u
        <= 0x200a) || u == 0x2028 || u == 0x2029 || u == 0x202f || u == 0x205f || u == 0x3000
}

pub open spec fn trim_start(s: Seq<char>) -> Seq<char>
    decreases s.len(),
{
    if s.len() > 0 && is_ws(s[0]) {
        trim_start(s.drop_first())
    } else {
        s
    }
}

pub open spec fn trim_end(s: Seq<char>) -> Seq<char>
    decreases s.len(),
{
    if s.len() > 0 && is_ws(s.last()) {
        trim_end(s.drop_last())
    } else {
        s
    }
}

/// The characters without leading and trailing white space.
pub open spec fn trim(s: Seq<char>) -> Seq<char> {
    trim_end(trim_start(s))
}

pub open spec fn ascii_lower(c: char) -> char {
    if 'A' <= c && c <= 'Z' {
        ((c as u32) + 32) as char
    } else {
        c
    }
}

pub open spec fn ascii_upper(c: char) -> char {
    if 'a' <= c && c <= 'z' {
        ((c as u32) - 32) as char
    } else {
        c
    }
}

pub open spec fn eq_ignore_ascii_case(a: Seq<char>, b: Seq<char>) -> bool {
    a.len() == b.len() && forall|i: int| 0 <= i < a.len() ==> ascii_lower(#[trigger] a[i]) == ascii_lower(b[i])
}

/// Replaces every occurrence of `pat`, scanning left to right without overlaps
/// (as `str::replace` does).
pub open spec fn replace_all(s: Seq<char>, pat: Seq<char>, rep: Seq<char>) -> Seq<char>
    decreases s.len(),
{
    if pat.len() == 0 || s.len() < pat.len() {
        s
    } else if s.subrange(0, pat.len() as int) == pat {
        rep + replace_all(s.subrange(pat.len() as int, s.len() as int), pat, rep)
    } else {
        seq![s[0]] + replace_all(s.drop_first(), pat, rep)
    }
}

/// The markers that the speech model emits for non-speech.
pub open spec fn unwanted_tokens() -> Seq<Seq<char>> {
    seq![
        "[BLANK_AUDIO]"@,
        "[blank_audio]"@,
        "[MUSIC]"@,
        "[music]"@,
        "[NOISE]"@,
        "[noise]"@,
        "[SILENCE]"@,
        "[silence]"@,
        "[SPEAKING]"@,
        "[speaking]"@,
        "[SOUND]"@,
        "[sound]"@,
        "[BEEP]"@,
        "[beep]"@,
        "[APPLAUSE]"@,
        "[applause]"@,
        "[LAUGHTER]"@,
        "[laughter]"@,
        "[COUGH]"@,
        "[cough]"@,
        "(blank)"@,
        "(BLANK)"@,
        "(no audio)"@,
        "(NO AUDIO)"@,
        "inaudible"@,
        "INAUDIBLE"@,
    ]
}

/// Removes one marker as written, in lower case and in upper case.
pub open spec fn strip_token(s: Seq<char>, t: Seq<char>) -> Seq<char> {
    replace_all(
        replace_all(replace_all(s, t, seq![]), t.map_values(|c: char| ascii_lower(c)), seq![]),
        t.map_values(|c: char| ascii_upper(c)),
        seq![],
    )
}

/// Removes the first `k` markers, in order.
pub open spec fn strip_tokens(s: Seq<char>, k: nat) -> Seq<char>
    decreases k,
{
    if k == 0 {
        s
    } else {
        strip_token(strip_tokens(s, (k - 1) as nat), unwanted_tokens()[k - 1])
    }
}

/// Collapses double spaces and spaces before punctuation, then trims.
pub open spec fn tidy(s: Seq<char>) -> Seq<char> {
    trim(
        replace_all(
            replace_all(
                replace_all(
                    replace_all(replace_all(s, "  "@, " "@), " ,"@, ","@),
                    " ."@,
                    "."@,
                ),
                " ?"@,
                "?"@,
            ),
            " !"@,
            "!"@,
        ),
    )
}

/// Shorter than two bytes in UTF-8.
pub open spec fn under_two_bytes(s: Seq<char>) -> bool {
    s.len() == 0 || (s.len() == 1 && (s[0] as u32) < 0x80)
}

/// What `clean_whisper_output` returns for a segment.
pub open spec fn cleaned(text: Seq<char>) -> Seq<char> {
    let t = trim(text);
    if exists|k: int| 0 <= k < unwanted_tokens().len() && eq_ignore_ascii_case(t, #[trigger] unwanted_tokens()[k]) {
        seq![]
    } else {
        let c = tidy(strip_tokens(t, unwanted_tokens().len()));
        if under_two_bytes(c) {
            seq![]
        } else {
            c
        }
    }
}

fn unwanted_list() -> (r: Vec<&'static str>)
    ensures
        r@.len() == unwanted_tokens().len(),
        forall|i: int| 0 <= i < r@.len() ==> #[trigger] r@[i]@ == unwanted_tokens()[i],
{
    let v: Vec<&'static str> = vec![
        "[BLANK_AUDIO]",
        "[blank_audio]",
        "[MUSIC]",
        "[music]",
        "[NOISE]",
        "[noise]",
        "[SILENCE]",
        "[silence]",
        "[SPEAKING]",
        "[speaking]",
        "[SOUND]",
        "[sound]",
        "[BEEP]",
        "[beep]",
        "[APPLAUSE]",
        "[applause]",
        "[LAUGHTER]",
        "[laughter]",
        "[COUGH]",
        "[cough]",
        "(blank)",
        "(BLANK)",
        "(no audio)",
        "(NO AUDIO)",
        "inaudible",
        "INAUDIBLE",
    ];
    v
}

fn lower_char(c: char) -> (r: char)
    ensures
        r == ascii_lower(c),
{
    if 'A' <= c && c <= 'Z' {
        ((c as u8) + 32) as char
    } else {
        c
    }
}

fn upper_char(c: char) -> (r: char)
    ensures
        r == ascii_upper(c),
{
    if 'a' <= c && c <= 'z' {
        ((c as u8) - 32) as char
    } else {
        c
    }
}

fn map_lower(s: &Vec<char>) -> (r: Vec<char>)
    ensures
        r@ == s@.map_values(|c: char| ascii_lower(c)),
{
    let mut out: Vec<char> = Vec::new();
    let mut i: usize = 0;
    while i < s.len()
        invariant
            0 <= i <= s@.len(),
            out@ == s@.subrange(0, i as int).map_values(|c: char| ascii_lower(c)),
        decreases s@.len() - i,
    {
        out.push(lower_char(s[i]));
        proof {
            assert(s@.subrange(0, i + 1).map_values(|c: char| ascii_lower(c)) =~= s@.subrange(0, i as int).map_values(
                |c: char| ascii_lower(c),
            ).push(ascii_lower(s@[i as int])));
        }
        i = i + 1;
    }
    proof {
        assert(s@.subrange(0, s@.len() as int) =~= s@);
    }
    out
}

fn map_upper(s: &Vec<char>) -> (r: Vec<char>)
    ensures
        r@ == s@.map_values(|c: char| ascii_upper(c)),
{
    let mut out: Vec<char> = Vec::new();
    let mut i: usize = 0;
    while i < s.len()
        invariant
            0 <= i <= s@.len(),
            out@ == s@.subrange(0, i as int).map_values(|c: char| ascii_upper(c)),
        decreases s@.len() - i,
    {
        out.push(upper_char(s[i]));
        proof {
            assert(s@.subrange(0, i + 1).map_values(|c: char| ascii_upper(c)) =~= s@.subrange(0, i as int).map_values(
                |c: char| ascii_upper(c),
            ).push(ascii_upper(s@[i as int])));
        }
        i = i + 1;
    }
    proof {
        assert(s@.subrange(0, s@.len() as int) =~= s@);
    }
    out
}

fn eq_ignore_case(a: &Vec<char>, b: &Vec<char>) -> (r: bool)
    ensures
        r == eq_ignore_ascii_case(a@, b@),
{
    if a.len() != b.len() {
        return false;
    }
    let mut i: usize = 0;
    while i < a.len()
        invariant
            a@.len() == b@.len(),
            0 <= i <= a@.len(),
            forall|j: int| 0 <= j < i ==> ascii_lower(#[trigger] a@[j]) == ascii_lower(b@[j]),
        decreases a@.len() - i,
    {
        if lower_char(a[i]) != lower_char(b[i]) {
            return false;
        }
        i = i + 1;
    }
    true
}

/// Whether `pat` occurs in `s` at position `i`.
fn matches_at(s: &Vec<char>, i: usize, pat: &Vec<char>) -> (r: bool)
    requires
        i <= s@.len(),
    ensures
        r == (i + pat@.len() <= s@.len() && s@.subrange(i as int, i + pat@.len()) == pat@),
{
    let n = s.len();
    if pat.len() > n - i {
        return false;
    }
    let mut k: usize = 0;
    while k < pat.len()
        invariant
            n == s@.len(),
            i + pat@.len() <= s@.len(),
            0 <= k <= pat@.len(),
            forall|j: int| 0 <= j < k ==> #[trigger] pat@[j] == s@[i + j],
        decreases pat@.len() - k,
    {
        if s[i + k] != pat[k] {
            proof {
                assert(s@.subrange(i as int, i + pat@.len())[k as int] != pat@[k as int]);
            }
            return false;
        }
        k = k + 1;
    }
    proof {
        assert(s@.subrange(i as int, i + pat@.len()) =~= pat@);
    }
    true
}

fn append_all(out: &mut Vec<char>, src: &Vec<char>)
    ensures
        final(out)@ == old(out)@ + src@,
{
    let mut k: usize = 0;
    let ghost start = out@;
    while k < src.len()
        invariant
            0 <= k <= src@.len(),
            out@ == start + src@.subrange(0, k as int),
        decreases src@.len() - k,
    {
        out.push(src[k]);
        proof {
            assert(src@.subrange(0, k + 1) =~= src@.subrange(0, k as int).push(src@[k as int]));
        }
        k = k + 1;
    }
    proof {
        assert(src@.subrange(0, src@.len() as int) =~= src@);
    }
}

/// `s` with every occurrence of `pat` replaced by `rep`.
pub fn replace_chars(s: &Vec<char>, pat: &Vec<char>, rep: &Vec<char>) -> (r: Vec<char>)
    ensures
        r@ == replace_all(s@, pat@, rep@),
{
    if pat.len() == 0 {
        return s.clone();
    }
    let n = s.len();
    let mut out: Vec<char> = Vec::new();
    let mut i: usize = 0;
    proof {
        assert(s@.subrange(0, n as int) =~= s@);
        assert(out@ + replace_all(s@, pat@, rep@) =~= replace_all(s@, pat@, rep@));
    }
    while i < n
        invariant
            n == s@.len(),
            pat@.len() > 0,
            0 <= i <= n,
            out@ + replace_all(s@.subrange(i as int, n as int), pat@, rep@) == replace_all(s@, pat@, rep@),
        decreases n - i,
    {
        let ghost t = s@.subrange(i as int, n as int);
        if matches_at(s, i, pat) {
            proof {
                assert(t.subrange(0, pat@.len() as int) =~= s@.subrange(i as int, i + pat@.len()));
                assert(t.subrange(pat@.len() as int, t.len() as int) =~= s@.subrange(i + pat@.len(), n as int));
                assert(out@ + rep@ + replace_all(s@.subrange(i + pat@.len(), n as int), pat@, rep@) =~= out@
                    + replace_all(t, pat@, rep@));
            }
            append_all(&mut out, rep);
            i = i + pat.len();
        } else {
            proof {
                if t.len() >= pat@.len() {
                    assert(t.subrange(0, pat@.len() as int) =~= s@.subrange(i as int, i + pat@.len()));
                }
                assert(t.drop_first() =~= s@.subrange(i + 1, n as int));
                assert(out@.push(s@[i as int]) + replace_all(s@.subrange(i + 1, n as int), pat@, rep@) =~= out@
                    + replace_all(t, pat@, rep@));
            }
            out.push(s[i]);
            i = i + 1;
        }
    }
    proof {
        assert(s@.subrange(n as int, n as int) =~= Seq::<char>::empty());
        assert(out@ + Seq::<char>::empty() =~= out@);
    }
    out
}

fn replace_str(s: &Vec<char>, pat: &str, rep: &str) -> (r: Vec<char>)
    ensures
        r@ == replace_all(s@, pat@, rep@),
{
    replace_chars(s, &chars_of(pat), &chars_of(rep))
}

proof fn lemma_trim_start_step(s: Seq<char>, i: int)
    requires
        0 <= i < s.len(),
        is_ws(s[i]),
    ensures
        trim_start(s.subrange(i, s.len() as int)) == trim_start(s.subrange(i + 1, s.len() as int)),
{
    let t = s.subrange(i, s.len() as int);
    assert(t.drop_first() =~= s.subrange(i + 1, s.len() as int));
}

proof fn lemma_trim_end_step(t: Seq<char>, j: int)
    requires
        0 < j <= t.len(),
        is_ws(t[j - 1]),
    ensures
        trim_end(t.subrange(0, j)) == trim_end(t.subrange(0, j - 1)),
{
    assert(t.subrange(0, j).drop_last() =~= t.subrange(0, j - 1));
}

/// The characters without leading and trailing white space.
pub fn trim_chars(s: &Vec<char>) -> (r: Vec<char>)
    ensures
        r@ == trim(s@),
{
    let n = s.len();
    let mut i: usize = 0;
    proof {
        assert(s@.subrange(0, n as int) =~= s@);
    }
    while i < n && is_whitespace_char(s[i])
        invariant
            n == s@.len(),
            0 <= i <= n,
            trim_start(s@) == trim_start(s@.subrange(i as int, n as int)),
        decreases n - i,
    {
        proof {
            lemma_trim_start_step(s@, i as int);
        }
        i = i + 1;
    }
    let ghost t = s@.subrange(i as int, n as int);
    proof {
        if i < n {
            assert(t[0] == s@[i as int]);
        }
        assert(trim_start(s@) == t);
    }
    let mut j: usize = n;
    proof {
        assert(t.subrange(0, (n - i) as int) =~= t);
    }
    while j > i && is_whitespace_char(s[j - 1])
        invariant
            n == s@.len(),
            i <= j <= n,
            t == s@.subrange(i as int, n as int),
            trim_end(t) == trim_end(t.subrange(0, j - i)),
        decreases j,
    {
        proof {
            assert(t[j - 1 - i] == s@[j - 1]);
            lemma_trim_end_step(t, j - i);
        }
        j = j - 1;
    }
    proof {
        let u = t.subrange(0, j - i);
        if j > i {
            assert(u.last() == s@[j - 1]);
        }
        assert(trim_end(u) == u);
        assert(u =~= s@.subrange(i as int, j as int));
    }
    let mut out: Vec<char> = Vec::new();
    let mut k: usize = i;
    while k < j
        invariant
            i <= k <= j <= n,
            n == s@.len(),
            out@ == s@.subrange(i as int, k as int),
        decreases j - k,
    {
        out.push(s[k]);
        proof {
            assert(s@.subrange(i as int, k + 1) =~= s@.subrange(i as int, k as int).push(s@[k as int]));
        }
        k = k + 1;
    }
    out
}

fn strip_one(s: &Vec<char>, token: &str) -> (r: Vec<char>)
    ensures
        r@ == strip_token(s@, token@),
{
    let t = chars_of(token);
    let empty: Vec<char> = Vec::new();
    let a = replace_chars(s, &t, &empty);
    let b = replace_chars(&a, &map_lower(&t), &empty);
    proof {
        assert(empty@ =~= Seq::<char>::empty());
    }
    replace_chars(&b, &map_upper(&t), &empty)
}

/// Cleans one transcribed segment: trims it; drops it when it is nothing but
/// a non-speech marker (in any ASCII case); otherwise removes the markers
/// (as listed, lower-cased and upper-cased), collapses double spaces and
/// spaces before `, . ? !`, trims again, and drops what is shorter than two
/// bytes.
pub fn clean_whisper_output(text: &str) -> (r: String)
    ensures
        r@ == cleaned(text@),
{
    let t = trim_chars(&chars_of(text));
    let tokens = unwanted_list();
    let mut k: usize = 0;
    while k < tokens.len()
        invariant
            tokens@.len() == unwanted_tokens().len(),
            forall|i: int| 0 <= i < tokens@.len() ==> #[trigger] tokens@[i]@ == unwanted_tokens()[i],
            0 <= k <= tokens@.len(),
            t@ == trim(text@),
            forall|j: int| 0 <= j < k ==> !eq_ignore_ascii_case(t@, #[trigger] unwanted_tokens()[j]),
        decreases tokens@.len() - k,
    {
        if eq_ignore_case(&t, &chars_of(tokens[k])) {
            proof {
                assert(eq_ignore_ascii_case(t@, unwanted_tokens()[k as int]));
            }
            return String::new();
        }
        k = k + 1;
    }
    let mut c = t;
    let mut k: usize = 0;
    while k < tokens.len()
        invariant
            tokens@.len() == unwanted_tokens().len(),
            forall|i: int| 0 <= i < tokens@.len() ==> #[trigger] tokens@[i]@ == unwanted_tokens()[i],
            0 <= k <= tokens@.len(),
            c@ == strip_tokens(trim(text@), k as nat),
        decreases tokens@.len() - k,
    {
        c = strip_one(&c, tokens[k]);
        k = k + 1;
    }
    let c = replace_str(&c, "  ", " ");
    let c = replace_str(&c, " ,", ",");
    let c = replace_str(&c, " .", ".");
    let c = replace_str(&c, " ?", "?");
    let c = replace_str(&c, " !", "!");
    let c = trim_chars(&c);
    if c.len() == 0 || (c.len() == 1 && (c[0] as u32) < 0x80) {
        return String::new();
    }
    string_from_chars(&c)
}

} // verus!

//! The domain generator: random labels over a fixed 32-symbol alphabet,
//! joined with a top-level domain to form one output line each.
use vstd::prelude::*;
use vstd::string::StrSliceExecFns;
use vstd::string::StringExecFns;

verus! {

/// Every generated label has this many characters.
pub const LABEL_LEN: usize = 16;

/// The fixed, ordered 32-symbol alphabet that label characters are drawn
/// from: the lowercase letters `a`..`z`, then the digits `2`..`7`.
pub open spec fn charset() -> Seq<char> {
    "abcdefghijklmnopqrstuvwxyz234567"@
}

/// A character that the alphabet holds: a lowercase letter or one of the
/// digits `2`..`7`.
pub open spec fn is_charset_char(c: char) -> bool {
    ('a' <= c && c <= 'z') || ('2' <= c && c <= '7')
}

/// The alphabet has 32 symbols, each of them a charset character; and the
/// charset characters are exactly what the alphabet holds.
pub proof fn lemma_charset_chars()
    ensures
        charset().len() == 32,
        forall|i: int| 0 <= i < 32 ==> is_charset_char(#[trigger] charset()[i]),
        forall|c: char| is_charset_char(c) ==> charset().contains(c),
{
    reveal_strlit("abcdefghijklmnopqrstuvwxyz234567");
    assert forall|c: char| is_charset_char(c) implies charset().contains(c) by {
        if 'a' <= c && c <= 'z' {
            let i = (c as int) - ('a' as int);
            assert(charset()[i] == c);
        } else {
            let i = 26 + (c as int) - ('2' as int);
            assert(charset()[i] == c);
        }
    }
}

/// Relies on rand::random_range over `0..n`: a uniform draw from the range,
/// which panics only when the range is empty.
#[verifier::external_body]
fn random_index(n: usize) -> (r: usize)
    requires
        0 < n,
    ensures
        r < n,
{
    rand::random_range(0..n)
}

/// Generates one random label: `length` characters, each drawn
/// independently from the 32-symbol alphabet.
pub fn generate_label(length: usize) -> (label: String)
    ensures
        label@.len() == length,
        forall|i: int| 0 <= i < length ==> is_charset_char(#[trigger] label@[i]),
{
    let symbols: &str = "abcdefghijklmnopqrstuvwxyz234567";
    let mut label = String::new();
    let mut drawn: usize = 0;
    while drawn < length
        invariant
            drawn <= length,
            label@.len() == drawn,
            forall|i: int| 0 <= i < drawn ==> is_charset_char(#[trigger] label@[i]),
            symbols@ == charset(),
        decreases length - drawn,
    {
        proof {
            reveal_strlit("abcdefghijklmnopqrstuvwxyz234567");
            lemma_charset_chars();
        }
        let idx = random_index(32);
        let ch = symbols.substring_ascii(idx, idx + 1);
        label.append(ch);
        drawn = drawn + 1;
    }
    label
}

/// One full output line over a given top-level domain: a label of
/// `label_len` charset characters, a dot, then the domain.
pub open spec fn is_domain_line(line: Seq<char>, tld: Seq<char>, label_len: int) -> bool {
    &&& line.len() == label_len + 1 + tld.len()
    &&& forall|i: int| 0 <= i < label_len ==> is_charset_char(#[trigger] line[i])
    &&& line[label_len] == '.'
    &&& line.skip(label_len + 1) == tld
}

/// Joins a label and a top-level domain with the separating dot.
pub fn format_domain(label: &str, tld: &str) -> (line: String)
    ensures
        line@ == label@ + "."@ + tld@,
{
    let mut line = String::from_str(label);
    line.append(".");
    line.append(tld);
    line
}

/// One output line: a fresh random label of `LABEL_LEN` characters, then a
/// dot, then the given top-level domain.
pub fn domain_line(tld: &str) -> (line: String)
    ensures
        is_domain_line(line@, tld@, LABEL_LEN as int),
{
    let label = generate_label(LABEL_LEN);
    let line = format_domain(label.as_str(), tld);
    proof {
        reveal_strlit(".");
        assert(line@.skip(LABEL_LEN as int + 1) =~= tld@);
    }
    line
}

/// Generates `count` output lines, each over a fresh random label of
/// `LABEL_LEN` characters and the given top-level domain.
pub fn generate_domains(count: usize, tld: &str) -> (lines: Vec<String>)
    ensures
        lines@.len() == count,
        forall|i: int| 0 <= i < count ==> is_domain_line(#[trigger] lines@[i]@, tld@, LABEL_LEN as int),
{
    let mut lines: Vec<String> = Vec::new();
    let mut made: usize = 0;
    while made < count
        invariant
            made <= count,
            lines@.len() == made,
            forall|i: int| 0 <= i < made ==> is_domain_line(#[trigger] lines@[i]@, tld@, LABEL_LEN as int),
        decreases count - made,
    {
        let line = domain_line(tld);
        lines.push(line);
        made = made + 1;
    }
    lines
}

} // verus!

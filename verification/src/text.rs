use vstd::prelude::*;

use sha2::{Digest, Sha256};



verus! {

/// The views of a list of text slices.
pub open spec fn views(parts: Seq<&str>) -> Seq<Seq<char>> {
    parts.map_values(|p: &str| p@)
}

/// `parts` joined by `sep`: no separator before the first part, one between each two.
pub open spec fn join_with(parts: Seq<Seq<char>>, sep: Seq<char>) -> Seq<char>
    decreases parts.len(),
{
    if parts.len() == 0 {
        seq![]
    } else if parts.len() == 1 {
        parts[0]
    } else {
        join_with(parts.drop_last(), sep) + sep + parts.last()
    }
}

/// The canonical form of a list of parts: joined by `|`.
pub open spec fn bar_join(parts: Seq<Seq<char>>) -> Seq<char> {
    join_with(parts, seq!['|'])
}

/// Lower-case hexadecimal digit of a nibble.
pub open spec fn hex_digit(n: int) -> char {
    if n < 10 {
        (48 + n) as char
    } else {
        (87 + n) as char
    }
}

/// Lower-case hexadecimal text of bytes, two digits per byte, high nibble first.
pub open spec fn hex_lower(bytes: Seq<u8>) -> Seq<char>
    decreases bytes.len(),
{
    if bytes.len() == 0 {
        seq![]
    } else {
        hex_lower(bytes.drop_last()) + seq![
            hex_digit(bytes.last() as int / 16),
            hex_digit(bytes.last() as int % 16),
        ]
    }
}

/// Hex text has two digits per byte.
pub proof fn lemma_hex_lower_len(bytes: Seq<u8>)
    ensures
        hex_lower(bytes).len() == 2 * bytes.len(),
    decreases bytes.len(),
{
    if bytes.len() > 0 {
        lemma_hex_lower_len(bytes.drop_last());
    }
}

/// The SHA-256 digest of the UTF-8 bytes of a text.
pub uninterp spec fn sha256_of(text: Seq<char>) -> Seq<u8>;

/// The hash of the canonical form of `parts`: hex of SHA-256 of the `|`-joined text.
pub open spec fn canonical_hash(parts: Seq<Seq<char>>) -> Seq<char> {
    hex_lower(sha256_of(bar_join(parts)))
}

/// Calls `sha2::Sha256::digest` on the UTF-8 bytes of `text`. Claimed: the digest is
/// the named SHA-256 of the text, and it is 32 bytes long (the output size of SHA-256).
#[verifier::external_body]
fn sha256_text(text: &str) -> (digest: Vec<u8>)
    ensures
        digest@ == sha256_of(text@),
        digest@.len() == 32,
{
    Sha256::digest(text.as_bytes()).to_vec()
}

/// Calls `hex::encode`. Claimed: the text is lower-case hex, two digits per byte, high
/// nibble first (the table `0123456789abcdef` of the crate).
#[verifier::external_body]
fn hex_encode(bytes: &[u8]) -> (text: String)
    ensures
        text@ == hex_lower(bytes@),
{
    hex::encode(bytes)
}

/// Joins the parts with `|`, the canonical separator.
pub fn canonical_join(parts: &[&str]) -> (joined: String)
    ensures
        joined@ == bar_join(views(parts@)),
{
    let mut out = String::new();
    let ghost vs = views(parts@);
    let mut i: usize = 0;
    while i < parts.len()
        invariant
            i <= parts.len(),
            vs == views(parts@),
            out@ == bar_join(vs.take(i as int)),
        decreases parts.len() - i,
    {
        if i > 0 {
            out.append("|");
        }
        out.append(parts[i]);
        proof {
            reveal_strlit("|");
            assert(vs.take(i + 1).drop_last() =~= vs.take(i as int));
        }
        i += 1;
    }
    assert(vs.take(parts@.len() as int) =~= vs);
    out
}

/// Hashes the canonical form of the parts: lower-case hex of SHA-256.
pub fn hash_canonical(parts: &[&str]) -> (h: crate::ids::Hash)
    ensures
        h@ == canonical_hash(views(parts@)),
        h@.len() == 64,
{
    let joined = canonical_join(parts);
    let digest = sha256_text(joined.as_str());
    let text = hex_encode(digest.as_slice());
    proof {
        lemma_hex_lower_len(digest@);
    }
    crate::ids::Hash::from_string(text)
}

/// Hash of one part.
pub fn hash_one(a: &str) -> (h: crate::ids::Hash)
    ensures
        h@ == canonical_hash(seq![a@]),
{
    let parts = [a];
    proof {
        assert(views(parts@) =~= seq![a@]);
    }
    hash_canonical(&parts)
}

/// Hash of two parts.
pub fn hash_two(a: &str, b: &str) -> (h: crate::ids::Hash)
    ensures
        h@ == canonical_hash(seq![a@, b@]),
{
    let parts = [a, b];
    proof {
        assert(views(parts@) =~= seq![a@, b@]);
    }
    hash_canonical(&parts)
}

/// Hash of three parts.
pub fn hash_three(a: &str, b: &str, c: &str) -> (h: crate::ids::Hash)
    ensures
        h@ == canonical_hash(seq![a@, b@, c@]),
{
    let parts = [a, b, c];
    proof {
        assert(views(parts@) =~= seq![a@, b@, c@]);
    }
    hash_canonical(&parts)
}

/// Joins the parts with the separator.
pub fn join_texts(parts: &Vec<String>, sep: &str) -> (joined: String)
    ensures
        joined@ == join_with(parts@.map_values(|p: String| p@), sep@),
{
    let mut out = String::new();
    let ghost vs = parts@.map_values(|p: String| p@);
    let mut i: usize = 0;
    while i < parts.len()
        invariant
            i <= parts.len(),
            vs == parts@.map_values(|p: String| p@),
            out@ == join_with(vs.take(i as int), sep@),
        decreases parts.len() - i,
    {
        if i > 0 {
            out.append(sep);
        }
        out.append(parts[i].as_str());
        proof {
            assert(vs.take(i + 1).drop_last() =~= vs.take(i as int));
        }
        i += 1;
    }
    assert(vs.take(parts@.len() as int) =~= vs);
    out
}

/// Whether `prefix` is a prefix of `text`.
pub open spec fn is_prefix_of(prefix: Seq<char>, text: Seq<char>) -> bool {
    prefix.len() <= text.len() && text.subrange(0, prefix.len() as int) == prefix
}

/// Whether `text` starts with `prefix`.
pub fn starts_with(text: &str, prefix: &str) -> (b: bool)
    ensures
        b == is_prefix_of(prefix@, text@),
{
    let n = text.unicode_len();
    let m = prefix.unicode_len();
    if m > n {
        return false;
    }
    let mut i: usize = 0;
    while i < m
        invariant
            i <= m <= n,
            n == text@.len(),
            m == prefix@.len(),
            forall|j: int| 0 <= j < i ==> text@[j] == prefix@[j],
        decreases m - i,
    {
        if text.get_char(i) != prefix.get_char(i) {
            assert(text@.subrange(0, m as int)[i as int] != prefix@[i as int]);
            return false;
        }
        i += 1;
    }
    assert(text@.subrange(0, m as int) =~= prefix@);
    true
}

/// Whether `needle` occurs in `hay` at position `at`.
pub open spec fn occurs_at(hay: Seq<u8>, needle: Seq<u8>, at: int) -> bool {
    0 <= at && at + needle.len() <= hay.len() && hay.subrange(at, at + needle.len()) == needle
}

/// Whether `needle` occurs anywhere in `hay`.
pub open spec fn occurs_in(hay: Seq<u8>, needle: Seq<u8>) -> bool {
    exists|at: int| occurs_at(hay, needle, at)
}

/// Whether the byte string `needle` occurs in `hay`.
pub fn contains_bytes(hay: &[u8], needle: &[u8]) -> (b: bool)
    ensures
        b == occurs_in(hay@, needle@),
{
    let n = hay.len();
    let m = needle.len();
    if m > n {
        assert forall|at: int| !occurs_at(hay@, needle@, at) by {}
        return false;
    }
    let mut at: usize = 0;
    while at <= n - m
        invariant
            n == hay@.len(),
            m == needle@.len(),
            m <= n,
            at <= n - m + 1,
            forall|k: int| 0 <= k < at ==> !occurs_at(hay@, needle@, k),
        decreases n + 1 - at,
    {
        let mut j: usize = 0;
        let mut ok = true;
        while j < m
            invariant
                n == hay@.len(),
                m == needle@.len(),
                at + m <= n,
                j <= m,
                ok == (forall|k: int| 0 <= k < j ==> hay@[at + k] == needle@[k]),
            decreases m - j,
        {
            if hay[at + j] != needle[j] {
                ok = false;
            }
            j += 1;
        }
        if ok {
            assert(hay@.subrange(at as int, at + m) =~= needle@);
            assert(occurs_at(hay@, needle@, at as int));
            return true;
        }
        assert(!occurs_at(hay@, needle@, at as int)) by {
            if occurs_at(hay@, needle@, at as int) {
                let k = choose|k: int| 0 <= k < m && hay@[at + k] != needle@[k];
                assert(hay@.subrange(at as int, at + m)[k] == hay@[at + k]);
            }
        }
        at += 1;
    }
    assert forall|k: int| !occurs_at(hay@, needle@, k) by {
        if 0 <= k && k < at {
        }
    }
    false
}

/// Decimal text of a number, without leading zeros.
pub open spec fn decimal(n: nat) -> Seq<char>
    decreases n,
{
    if n < 10 {
        seq![(48 + n) as char]
    } else {
        decimal(n / 10) + seq![(48 + n % 10) as char]
    }
}

/// Decimal text of a number, padded with a zero to at least two digits.
pub open spec fn decimal2(n: nat) -> Seq<char> {
    if n < 10 {
        seq!['0'] + decimal(n)
    } else {
        decimal(n)
    }
}

fn digit_text(d: u64) -> (s: String)
    requires
        d < 10,
    ensures
        s@ == seq![(48 + d) as char],
{
    let lit = if d == 0 { "0" }
    else if d == 1 { "1" }
    else if d == 2 { "2" }
    else if d == 3 { "3" }
    else if d == 4 { "4" }
    else if d == 5 { "5" }
    else if d == 6 { "6" }
    else if d == 7 { "7" }
    else if d == 8 { "8" }
    else { "9" };
    proof {
        reveal_strlit("0");
        reveal_strlit("1");
        reveal_strlit("2");
        reveal_strlit("3");
        reveal_strlit("4");
        reveal_strlit("5");
        reveal_strlit("6");
        reveal_strlit("7");
        reveal_strlit("8");
        reveal_strlit("9");
    }
    lit.to_string()
}

/// Decimal text of a number.
pub fn decimal_text(n: u64) -> (s: String)
    ensures
        s@ == decimal(n as nat),
    decreases n,
{
    if n < 10 {
        digit_text(n)
    } else {
        let mut s = decimal_text(n / 10);
        let d = digit_text(n % 10);
        s.append(d.as_str());
        s
    }
}

/// Decimal text of a number, padded to two digits.
pub fn decimal2_text(n: u64) -> (s: String)
    ensures
        s@ == decimal2(n as nat),
{
    if n < 10 {
        let mut s = digit_text(0);
        let d = decimal_text(n);
        s.append(d.as_str());
        s
    } else {
        decimal_text(n)
    }
}

/// The hexadecimal digits of a number below 256, without leading zeros.
pub open spec fn hex_small(n: nat) -> Seq<char> {
    if n < 16 {
        seq![hex_digit(n as int)]
    } else {
        seq![hex_digit((n / 16) as int), hex_digit((n % 16) as int)]
    }
}

/// How `Debug` writes a character inside a quoted text: quotes, backslashes and ASCII control
/// characters are escaped, every other character stands as it is.
pub open spec fn debug_char(c: char) -> Seq<char> {
    if c == '"' {
        seq!['\\', '"']
    } else if c == '\\' {
        seq!['\\', '\\']
    } else if c == '\n' {
        seq!['\\', 'n']
    } else if c == '\r' {
        seq!['\\', 'r']
    } else if c == '\t' {
        seq!['\\', 't']
    } else if c == '\0' {
        seq!['\\', '0']
    } else if (c as u32) < 32 || (c as u32) == 127 {
        seq!['\\', 'u', '{'] + hex_small((c as u32) as nat) + seq!['}']
    } else {
        seq![c]
    }
}

/// The escaped characters of a text, in order.
pub open spec fn debug_escape(s: Seq<char>) -> Seq<char>
    decreases s.len(),
{
    if s.len() == 0 {
        seq![]
    } else {
        debug_escape(s.drop_last()) + debug_char(s.last())
    }
}

/// A text as `Debug` writes it: escaped, between double quotes.
pub open spec fn debug_quoted(s: Seq<char>) -> Seq<char> {
    seq!['"'] + debug_escape(s) + seq!['"']
}

/// A one-field tuple struct over a text as `Debug` writes it: `Name("text")`.
pub open spec fn wrapped_debug(name: Seq<char>, s: Seq<char>) -> Seq<char> {
    name + seq!['('] + debug_quoted(s) + seq![')']
}

fn hex_digit_text(d: u32) -> (s: String)
    requires
        d < 16,
    ensures
        s@ == seq![hex_digit(d as int)],
{
    if d < 10 {
        digit_text(d as u64)
    } else {
        let lit = if d == 10 { "a" }
        else if d == 11 { "b" }
        else if d == 12 { "c" }
        else if d == 13 { "d" }
        else if d == 14 { "e" }
        else { "f" };
        proof {
            reveal_strlit("a");
            reveal_strlit("b");
            reveal_strlit("c");
            reveal_strlit("d");
            reveal_strlit("e");
            reveal_strlit("f");
        }
        lit.to_string()
    }
}

fn debug_char_text(s: &str, i: usize) -> (t: String)
    requires
        i < s@.len(),
    ensures
        t@ == debug_char(s@[i as int]),
{
    let c = s.get_char(i);
    let n = c as u32;
    if c == '"' {
        proof {
            reveal_strlit("\\\"");
        }
        "\\\"".to_string()
    } else if c == '\\' {
        proof {
            reveal_strlit("\\\\");
        }
        "\\\\".to_string()
    } else if c == '\n' {
        proof {
            reveal_strlit("\\n");
        }
        "\\n".to_string()
    } else if c == '\r' {
        proof {
            reveal_strlit("\\r");
        }
        "\\r".to_string()
    } else if c == '\t' {
        proof {
            reveal_strlit("\\t");
        }
        "\\t".to_string()
    } else if c == '\0' {
        proof {
            reveal_strlit("\\0");
        }
        "\\0".to_string()
    } else if n < 32 || n == 127 {
        let mut t = "\\u{".to_string();
        if n >= 16 {
            t.append(hex_digit_text(n / 16).as_str());
        }
        t.append(hex_digit_text(n % 16).as_str());
        t.append("}");
        proof {
            reveal_strlit("\\u{");
            reveal_strlit("}");
            assert(t@ =~= debug_char(c));
        }
        t
    } else {
        let len = s.unicode_len();
        s.substring_char(i, i + 1).to_string()
    }
}

/// The text as `Debug` writes it: escaped, between double quotes.
pub fn debug_quoted_text(s: &str) -> (t: String)
    ensures
        t@ == debug_quoted(s@),
{
    let mut out = "\"".to_string();
    let n = s.unicode_len();
    let mut i: usize = 0;
    proof {
        reveal_strlit("\"");
        assert(s@.take(0) =~= Seq::<char>::empty());
    }
    while i < n
        invariant
            i <= n,
            n == s@.len(),
            out@ == seq!['"'] + debug_escape(s@.take(i as int)),
        decreases n - i,
    {
        let piece = debug_char_text(s, i);
        out.append(piece.as_str());
        proof {
            assert(s@.take(i + 1).drop_last() =~= s@.take(i as int));
            assert(s@.take(i + 1).last() == s@[i as int]);
        }
        i += 1;
    }
    out.append("\"");
    proof {
        assert(s@.take(n as int) =~= s@);
    }
    out
}

/// A one-field tuple struct over the text as `Debug` writes it: `Name("text")`.
pub fn wrapped_debug_text(name: &str, s: &str) -> (t: String)
    ensures
        t@ == wrapped_debug(name@, s@),
{
    let q = debug_quoted_text(s);
    let t = name.to_string().concat("(").concat(q.as_str()).concat(")");
    proof {
        reveal_strlit("(");
        reveal_strlit(")");
    }
    t
}

/// Whether two texts are equal.
pub fn same_text(a: &str, b: &str) -> (same: bool)
    ensures
        same == (a@ == b@),
{
    a.to_owned() == b.to_owned()
}

/// Whether some element of `list` equals `item`.
pub open spec fn text_listed(list: Seq<String>, item: Seq<char>) -> bool {
    exists|i: int| 0 <= i < list.len() && list[i]@ == item
}

/// Whether `item` is one of the texts in `list`.
pub fn list_has_text(list: &Vec<String>, item: &str) -> (found: bool)
    ensures
        found == text_listed(list@, item@),
{
    let mut i: usize = 0;
    while i < list.len()
        invariant
            i <= list.len(),
            forall|j: int| 0 <= j < i ==> list@[j]@ != item@,
        decreases list.len() - i,
    {
        if same_text(list[i].as_str(), item) {
            return true;
        }
        i += 1;
    }
    false
}

/// A copy of a byte string.
pub fn copy_bytes(bytes: &Vec<u8>) -> (out: Vec<u8>)
    ensures
        out@ == bytes@,
{
    let mut out: Vec<u8> = Vec::new();
    let mut i: usize = 0;
    while i < bytes.len()
        invariant
            i <= bytes@.len(),
            out@ == bytes@.take(i as int),
        decreases bytes@.len() - i,
    {
        out.push(bytes[i]);
        proof {
            assert(bytes@.take(i + 1) =~= bytes@.take(i as int).push(bytes@[i as int]));
        }
        i += 1;
    }
    assert(bytes@.take(bytes@.len() as int) =~= bytes@);
    out
}

/// Lexicographic order of texts by character code: the order `str::cmp` gives UTF-8 text.
pub open spec fn text_lt(a: Seq<char>, b: Seq<char>) -> bool
    decreases a.len(),
{
    if b.len() == 0 {
        false
    } else if a.len() == 0 {
        true
    } else if a[0] != b[0] {
        (a[0] as int) < (b[0] as int)
    } else {
        text_lt(a.drop_first(), b.drop_first())
    }
}

/// The order of texts is transitive.
pub proof fn lemma_text_lt_transitive(a: Seq<char>, b: Seq<char>, c: Seq<char>)
    requires
        text_lt(a, b),
        text_lt(b, c),
    ensures
        text_lt(a, c),
    decreases a.len(),
{
    if a.len() > 0 && b.len() > 0 && c.len() > 0 && a[0] == b[0] && b[0] == c[0] {
        lemma_text_lt_transitive(a.drop_first(), b.drop_first(), c.drop_first());
    }
}

/// Of two different texts, one comes before the other.
pub proof fn lemma_text_lt_total(a: Seq<char>, b: Seq<char>)
    requires
        a != b,
    ensures
        text_lt(a, b) || text_lt(b, a),
    decreases a.len(),
{
    if a.len() > 0 && b.len() > 0 && a[0] == b[0] {
        if a.drop_first() == b.drop_first() {
            assert(a =~= seq![a[0]] + a.drop_first());
            assert(b =~= seq![b[0]] + b.drop_first());
        }
        lemma_text_lt_total(a.drop_first(), b.drop_first());
    } else if a.len() == 0 && b.len() == 0 {
        assert(a =~= b);
    }
}

proof fn lemma_text_lt_skip(a: Seq<char>, b: Seq<char>, i: int)
    requires
        0 <= i < a.len(),
        i < b.len(),
        a[i] == b[i],
    ensures
        text_lt(a.skip(i), b.skip(i)) == text_lt(a.skip(i + 1), b.skip(i + 1)),
{
    assert(a.skip(i).drop_first() =~= a.skip(i + 1));
    assert(b.skip(i).drop_first() =~= b.skip(i + 1));
}

/// Whether `a` comes before `b` in the order of texts.
pub fn text_less(a: &str, b: &str) -> (lt: bool)
    ensures
        lt == text_lt(a@, b@),
{
    let n = a.unicode_len();
    let m = b.unicode_len();
    let mut i: usize = 0;
    assert(a@.skip(0) =~= a@ && b@.skip(0) =~= b@);
    while i < n && i < m
        invariant
            n == a@.len(),
            m == b@.len(),
            i <= n,
            i <= m,
            text_lt(a@, b@) == text_lt(a@.skip(i as int), b@.skip(i as int)),
        decreases n - i,
    {
        let ca = a.get_char(i);
        let cb = b.get_char(i);
        if ca != cb {
            return (ca as u32) < (cb as u32);
        }
        proof {
            lemma_text_lt_skip(a@, b@, i as int);
        }
        i += 1;
    }
    i < m
}

} // verus!

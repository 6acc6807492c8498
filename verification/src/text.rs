//! Character-level text functions, stated over `Seq<char>`.
use vstd::prelude::*;

verus! {

/// The ASCII lower-case form of a character; other characters are unchanged.
pub open spec fn lower_char(c: char) -> char {
    if 'A' <= c && c <= 'Z' {
        (c as u32 + 32) as char
    } else {
        c
    }
}

/// The ASCII lower-case form of a text.
pub open spec fn lower(s: Seq<char>) -> Seq<char> {
    Seq::new(s.len(), |i: int| lower_char(s[i]))
}

/// Two texts that differ at most in the case of ASCII letters.
pub open spec fn same_ignoring_case(a: Seq<char>, b: Seq<char>) -> bool {
    lower(a) == lower(b)
}

/// `String::push`: the character is appended.
pub assume_specification[ String::push ](s: &mut String, c: char)
    ensures
        final(s)@ == old(s)@.push(c),
;

/// The characters of `s`, in order.
pub fn chars(s: &str) -> (out: Vec<char>)
    ensures
        out@ == s@,
{
    let mut out: Vec<char> = Vec::new();
    for c in it: s.chars()
        invariant
            out@ == it.seq().take(it.index() as int),
            it.seq() == s@,
    {
        out.push(c);
    }
    out
}

/// The text made of the characters `from..to` of `v`.
pub fn slice_text(v: &Vec<char>, from: usize, to: usize) -> (out: String)
    requires
        from <= to <= v@.len(),
    ensures
        out@ == v@.subrange(from as int, to as int),
{
    let mut out = String::new();
    let mut i: usize = from;
    while i < to
        invariant
            from <= i <= to <= v@.len(),
            out@ == v@.subrange(from as int, i as int),
        decreases to - i,
    {
        out.push(v[i]);
        i = i + 1;
    }
    out
}

/// Whether two texts are the same.
pub fn same(a: &str, b: &str) -> (r: bool)
    ensures
        r == (a@ == b@),
{
    a.to_owned() == b.to_owned()
}

pub fn to_lower_char(c: char) -> (r: char)
    ensures
        r == lower_char(c),
{
    if 'A' <= c && c <= 'Z' {
        ((c as u8) + 32u8) as char
    } else {
        c
    }
}

/// `s` with its ASCII letters in lower case.
pub fn to_lower(s: &str) -> (r: String)
    ensures
        r@ == lower(s@),
{
    let v = chars(s);
    let mut out = String::new();
    let mut i: usize = 0;
    while i < v.len()
        invariant
            i <= v@.len(),
            v@ == s@,
            out@ == lower(s@).take(i as int),
        decreases v@.len() - i,
    {
        out.push(to_lower_char(v[i]));
        i = i + 1;
        assert(out@ =~= lower(s@).take(i as int));
    }
    assert(lower(s@).take(i as int) =~= lower(s@));
    out
}

/// Whether two texts differ at most in the case of ASCII letters.
pub fn eq_ignoring_case(a: &str, b: &str) -> (r: bool)
    ensures
        r == same_ignoring_case(a@, b@),
{
    to_lower(a) == to_lower(b)
}

/// The texts of a list of strings.
pub open spec fn views(v: Seq<String>) -> Seq<Seq<char>> {
    Seq::new(v.len(), |i: int| v[i]@)
}

/// The texts one after the other, with `sep` between them.
pub open spec fn joined(parts: Seq<Seq<char>>, sep: Seq<char>) -> Seq<char>
    decreases parts.len(),
{
    if parts.len() == 0 {
        Seq::empty()
    } else if parts.len() == 1 {
        parts[0]
    } else {
        joined(parts.drop_last(), sep) + sep + parts.last()
    }
}

/// The texts one after the other, with `sep` between them.
pub fn join(parts: &Vec<String>, sep: &str) -> (r: String)
    ensures
        r@ == joined(views(parts@), sep@),
{
    let mut out = String::new();
    let mut i: usize = 0;
    let ghost all = views(parts@);
    while i < parts.len()
        invariant
            i <= parts@.len(),
            all == views(parts@),
            out@ == joined(all.take(i as int), sep@),
        decreases parts@.len() - i,
    {
        if i > 0 {
            out.append(sep);
        }
        out.append(parts[i].as_str());
        i = i + 1;
        proof {
            assert(all.take(i as int).drop_last() =~= all.take(i - 1));
            assert(all.take(i as int).last() == all[i - 1]);
            if i == 1 {
                assert(out@ =~= all[0]);
            }
        }
    }
    assert(all.take(i as int) =~= all);
    out
}

/// What `str::to_lowercase` makes of a text.
pub uninterp spec fn unicode_lower(s: Seq<char>) -> Seq<char>;

/// `str::to_lowercase`: the text with the lower-case form of every character, as
/// [`unicode_lower`] names it. For ASCII characters that is the form that [`lower`] gives.
#[verifier::external_body]
fn std_lowercase(s: &str) -> (r: String)
    ensures
        r@ == unicode_lower(s@),
        ascii(s@) ==> r@ == lower(s@),
{
    s.to_lowercase()
}

/// The lower-case form of a text.
pub open spec fn lowercased(s: Seq<char>) -> Seq<char> {
    if ascii(s) {
        lower(s)
    } else {
        unicode_lower(s)
    }
}

/// The lower-case form of a text.
pub fn to_lowercase(s: &str) -> (r: String)
    ensures
        r@ == lowercased(s@),
{
    std_lowercase(s)
}

/// Whether `s` is one of the texts of `v`.
pub fn contains(v: &Vec<String>, s: &str) -> (r: bool)
    ensures
        r == views(v@).contains(s@),
{
    let mut i: usize = 0;
    while i < v.len()
        invariant
            i <= v@.len(),
            forall|j: int| 0 <= j < i ==> views(v@)[j] != s@,
        decreases v@.len() - i,
    {
        if same(v[i].as_str(), s) {
            assert(views(v@)[i as int] == s@);
            return true;
        }
        i = i + 1;
    }
    false
}

/// The character of a decimal digit.
pub open spec fn digit(d: nat) -> char {
    (48 + d) as char
}

/// A number in decimal.
pub open spec fn decimal(n: nat) -> Seq<char>
    decreases n,
{
    if n < 10 {
        seq![digit(n)]
    } else {
        decimal(n / 10).push(digit(n % 10))
    }
}

/// A number in decimal.
pub fn decimal_text(n: u64) -> (r: String)
    ensures
        r@ == decimal(n as nat),
    decreases n,
{
    let d: u8 = (n % 10) as u8;
    let c = (48u8 + d) as char;
    if n < 10 {
        let mut s = String::new();
        s.push(c);
        assert(s@ =~= seq![digit(n as nat)]);
        s
    } else {
        let mut s = decimal_text(n / 10);
        s.push(c);
        s
    }
}

/// `prefix` followed by a number in decimal.
pub open spec fn numbered(prefix: Seq<char>, n: nat) -> Seq<char> {
    prefix + decimal(n)
}

pub fn numbered_text(prefix: &str, n: u64) -> (r: String)
    ensures
        r@ == numbered(prefix@, n as nat),
{
    let mut s = prefix.to_owned();
    s.append(decimal_text(n).as_str());
    s
}

// --- trimming and splitting ---------------------------------------------------------

/// Whether a character is white space.
pub open spec fn is_space(c: char) -> bool {
    let n = c as u32;
    ||| 9 <= n <= 13
    ||| n == 32
    ||| n == 0x85
    ||| n == 0xA0
    ||| n == 0x1680
    ||| 0x2000 <= n <= 0x200A
    ||| n == 0x2028
    ||| n == 0x2029
    ||| n == 0x202F
    ||| n == 0x205F
    ||| n == 0x3000
}

pub fn space(c: char) -> (r: bool)
    ensures
        r == is_space(c),
{
    let n: u32 = c as u32;
    (9 <= n && n <= 13) || n == 32 || n == 0x85 || n == 0xA0 || n == 0x1680 || (0x2000 <= n && n
        <= 0x200A) || n == 0x2028 || n == 0x2029 || n == 0x202F || n == 0x205F || n == 0x3000
}

/// The characters that are trimmed from the ends of a text.
#[derive(Clone, Copy, Debug, PartialEq, Eq, Structural)]
pub enum Trim {
    Space,
    DoubleQuotes,
}

pub open spec fn is_trimmed(what: Trim, c: char) -> bool {
    match what {
        Trim::Space => is_space(c),
        Trim::DoubleQuotes => c == '"',
    }
}

fn trims(what: Trim, c: char) -> (r: bool)
    ensures
        r == is_trimmed(what, c),
{
    match what {
        Trim::Space => space(c),
        Trim::DoubleQuotes => c == '"',
    }
}

/// The text without the characters at its ends that `what` says.
pub open spec fn trimmed(what: Trim, s: Seq<char>) -> Seq<char>
    decreases s.len(),
{
    if s.len() > 0 && is_trimmed(what, s[0]) {
        trimmed(what, s.skip(1))
    } else if s.len() > 0 && is_trimmed(what, s[s.len() - 1]) {
        trimmed(what, s.drop_last())
    } else {
        s
    }
}

/// The text without the characters at its ends that `what` says.
pub fn trim(what: Trim, s: &str) -> (r: String)
    ensures
        r@ == trimmed(what, s@),
{
    let v = chars(s);
    let n: usize = v.len();
    let mut i: usize = 0;
    assert(v@.subrange(0, n as int) =~= v@);
    while i < n && trims(what, v[i])
        invariant
            i <= n,
            n == v@.len(),
            v@ == s@,
            trimmed(what, s@) == trimmed(what, v@.subrange(i as int, n as int)),
        decreases n - i,
    {
        assert(v@.subrange(i as int, n as int).skip(1) =~= v@.subrange(i + 1, n as int));
        i = i + 1;
    }
    let mut j: usize = n;
    while j > i && trims(what, v[j - 1])
        invariant
            i <= j <= n,
            n == v@.len(),
            i < n ==> !is_trimmed(what, v@[i as int]),
            trimmed(what, s@) == trimmed(what, v@.subrange(i as int, j as int)),
        decreases j - i,
    {
        assert(v@.subrange(i as int, j as int).drop_last() =~= v@.subrange(i as int, j - 1));
        j = j - 1;
    }
    slice_text(&v, i, j)
}

/// The pieces of a text between the characters `c`.
pub open spec fn split(s: Seq<char>, c: char) -> Seq<Seq<char>>
    decreases s.len(),
{
    if s.len() == 0 {
        seq![Seq::empty()]
    } else {
        let before = split(s.drop_last(), c);
        if s.last() == c {
            before.push(Seq::empty())
        } else {
            before.drop_last().push(before.last().push(s.last()))
        }
    }
}

proof fn split_is_not_empty(s: Seq<char>, c: char)
    ensures
        split(s, c).len() > 0,
    decreases s.len(),
{
    if s.len() > 0 {
        split_is_not_empty(s.drop_last(), c);
    }
}

/// The pieces of a text between the characters `c`.
pub fn split_text(s: &str, c: char) -> (r: Vec<String>)
    ensures
        views(r@) == split(s@, c),
{
    let v = chars(s);
    let mut done: Vec<String> = Vec::new();
    let mut piece = String::new();
    let mut i: usize = 0;
    assert(views(done@).push(piece@) =~= split(v@.take(0), c));
    while i < v.len()
        invariant
            i <= v@.len(),
            v@ == s@,
            views(done@).push(piece@) == split(v@.take(i as int), c),
        decreases v@.len() - i,
    {
        let ghost before = views(done@).push(piece@);
        proof {
            split_is_not_empty(v@.take(i as int), c);
            assert(v@.take(i + 1).drop_last() =~= v@.take(i as int));
            assert(before.drop_last() =~= views(done@));
        }
        if v[i] == c {
            done.push(piece);
            piece = String::new();
            assert(views(done@) =~= before);
        } else {
            piece.push(v[i]);
        }
        i = i + 1;
    }
    assert(v@.take(i as int) =~= v@);
    let ghost all = views(done@).push(piece@);
    done.push(piece);
    assert(views(done@) =~= all);
    done
}

// --- pairs of texts ---------------------------------------------------------------------

/// What a list of pairs of texts says.
pub open spec fn pairs_of(v: Seq<(String, String)>) -> Seq<(Seq<char>, Seq<char>)> {
    Seq::new(v.len(), |i: int| (v[i].0@, v[i].1@))
}

/// The second text of the first pair that begins with `key`.
pub open spec fn paired_with(pairs: Seq<(Seq<char>, Seq<char>)>, key: Seq<char>) -> Option<
    Seq<char>,
>
    decreases pairs.len(),
{
    if pairs.len() == 0 {
        None
    } else if pairs[0].0 == key {
        Some(pairs[0].1)
    } else {
        paired_with(pairs.skip(1), key)
    }
}

pub fn find_pair<'a>(pairs: &'a Vec<(String, String)>, key: &str) -> (r: Option<&'a String>)
    ensures
        match r {
            Some(s) => paired_with(pairs_of(pairs@), key@) == Some(s@),
            None => paired_with(pairs_of(pairs@), key@) is None,
        },
{
    let ghost all = pairs_of(pairs@);
    let mut i: usize = 0;
    assert(all.skip(0) =~= all);
    while i < pairs.len()
        invariant
            i <= pairs@.len(),
            all == pairs_of(pairs@),
            paired_with(all, key@) == paired_with(all.skip(i as int), key@),
        decreases pairs@.len() - i,
    {
        assert(all.skip(i as int)[0] == all[i as int]);
        assert(all.skip(i as int).skip(1) =~= all.skip(i + 1));
        if same(pairs[i].0.as_str(), key) {
            return Some(&pairs[i].1);
        }
        i = i + 1;
    }
    None
}

/// Whether every character of a text is an ASCII character.
pub open spec fn ascii(s: Seq<char>) -> bool {
    forall|i: int| 0 <= i < s.len() ==> (#[trigger] s[i] as u32) < 128
}

/// The ASCII upper-case form of a character; other characters are unchanged.
pub open spec fn upper_char(c: char) -> char {
    if 'a' <= c && c <= 'z' {
        (c as u32 - 32) as char
    } else {
        c
    }
}

/// The ASCII upper-case form of a text.
pub open spec fn upper(s: Seq<char>) -> Seq<char> {
    Seq::new(s.len(), |i: int| upper_char(s[i]))
}

/// What `str::to_uppercase` makes of a text.
pub uninterp spec fn unicode_upper(s: Seq<char>) -> Seq<char>;

/// `str::to_uppercase`: the text with the upper-case form of every character, as
/// [`unicode_upper`] names it. For ASCII characters that is the form that [`upper`] gives.
#[verifier::external_body]
fn std_uppercase(s: &str) -> (r: String)
    ensures
        r@ == unicode_upper(s@),
        ascii(s@) ==> r@ == upper(s@),
{
    s.to_uppercase()
}

/// The upper-case form of a text.
pub open spec fn uppercased(s: Seq<char>) -> Seq<char> {
    if ascii(s) {
        upper(s)
    } else {
        unicode_upper(s)
    }
}

/// The upper-case form of a text.
pub fn to_uppercase(s: &str) -> (r: String)
    ensures
        r@ == uppercased(s@),
{
    std_uppercase(s)
}

/// Whether `s` begins with `prefix`.
pub open spec fn starts_with(s: Seq<char>, prefix: Seq<char>) -> bool {
    s.len() >= prefix.len() && s.take(prefix.len() as int) == prefix
}

pub fn text_starts_with(s: &str, prefix: &str) -> (r: bool)
    ensures
        r == starts_with(s@, prefix@),
{
    let v = chars(s);
    let p = chars(prefix);
    if v.len() < p.len() {
        return false;
    }
    let mut i: usize = 0;
    while i < p.len()
        invariant
            i <= p@.len(),
            v@ == s@,
            p@ == prefix@,
            p@.len() <= v@.len(),
            forall|j: int| 0 <= j < i ==> v@[j] == #[trigger] p@[j],
        decreases p@.len() - i,
    {
        if v[i] != p[i] {
            assert(s@.take(prefix@.len() as int)[i as int] != prefix@[i as int]);
            return false;
        }
        i = i + 1;
    }
    assert(s@.take(prefix@.len() as int) =~= prefix@);
    true
}

/// Whether `s` ends with `suffix`.
pub open spec fn ends_with(s: Seq<char>, suffix: Seq<char>) -> bool {
    s.len() >= suffix.len() && s.skip(s.len() - suffix.len()) == suffix
}

pub fn text_ends_with(s: &str, suffix: &str) -> (r: bool)
    ensures
        r == ends_with(s@, suffix@),
{
    let v = chars(s);
    let p = chars(suffix);
    if v.len() < p.len() {
        return false;
    }
    let n: usize = v.len();
    let from: usize = n - p.len();
    let mut i: usize = 0;
    while i < p.len()
        invariant
            i <= p@.len(),
            n == v@.len(),
            v@ == s@,
            p@ == suffix@,
            p@.len() <= v@.len(),
            from == v@.len() - p@.len(),
            forall|j: int| 0 <= j < i ==> v@[from + j] == #[trigger] p@[j],
        decreases p@.len() - i,
    {
        if v[from + i] != p[i] {
            assert(s@.skip(from as int)[i as int] != suffix@[i as int]);
            return false;
        }
        i = i + 1;
    }
    assert(s@.skip(from as int) =~= suffix@);
    true
}

/// Where `part` first stands in `s` at or after `i`.
pub open spec fn part_from(s: Seq<char>, part: Seq<char>, i: nat) -> Option<nat>
    decreases s.len() + 1 - i,
{
    if i > s.len() {
        None
    } else if starts_with(s.skip(i as int), part) {
        Some(i)
    } else {
        part_from(s, part, i + 1)
    }
}

/// Where `part` first stands in `s`.
pub open spec fn find_part(s: Seq<char>, part: Seq<char>) -> Option<nat> {
    part_from(s, part, 0)
}

fn stands_at(v: &Vec<char>, p: &Vec<char>, at: usize) -> (r: bool)
    requires
        at <= v@.len(),
    ensures
        r == starts_with(v@.skip(at as int), p@),
{
    let n: usize = v.len();
    if n - at < p.len() {
        return false;
    }
    let mut i: usize = 0;
    while i < p.len()
        invariant
            i <= p@.len(),
            n == v@.len(),
            at + p@.len() <= n,
            forall|j: int| 0 <= j < i ==> v@[at + j] == #[trigger] p@[j],
        decreases p@.len() - i,
    {
        if v[at + i] != p[i] {
            assert(v@.skip(at as int).take(p@.len() as int)[i as int] != p@[i as int]);
            return false;
        }
        i = i + 1;
    }
    assert(v@.skip(at as int).take(p@.len() as int) =~= p@);
    true
}

/// Where `part` first stands in `s` at or after `from`.
pub fn find_text_from(s: &Vec<char>, part: &Vec<char>, from: usize) -> (r: Option<usize>)
    requires
        from <= s@.len(),
    ensures
        match r {
            Some(i) => part_from(s@, part@, from as nat) == Some(i as nat) && i + part@.len()
                <= s@.len(),
            None => part_from(s@, part@, from as nat) is None,
        },
{
    let mut i: usize = from;
    loop
        invariant
            i <= s@.len(),
            part_from(s@, part@, from as nat) == part_from(s@, part@, i as nat),
        decreases s@.len() - i,
    {
        if stands_at(s, part, i) {
            return Some(i);
        }
        if i == s.len() {
            assert(part_from(s@, part@, (i + 1) as nat) is None);
            return None;
        }
        i = i + 1;
    }
}

/// Where `part` first stands in `s`.
pub fn find_text(s: &Vec<char>, part: &Vec<char>) -> (r: Option<usize>)
    ensures
        match r {
            Some(i) => find_part(s@, part@) == Some(i as nat) && i + part@.len() <= s@.len(),
            None => find_part(s@, part@) is None,
        },
{
    find_text_from(s, part, 0)
}

/// Where `c` first stands in `s` at or after `i`.
pub open spec fn index_from<T>(s: Seq<T>, c: T, i: nat) -> Option<nat>
    decreases s.len() - i,
{
    if i >= s.len() {
        None
    } else if s[i as int] == c {
        Some(i)
    } else {
        index_from(s, c, i + 1)
    }
}

/// A number in decimal digits, with a sign if it is negative.
pub open spec fn signed(n: int) -> Seq<char> {
    if n >= 0 {
        decimal(n as nat)
    } else {
        "-"@ + decimal((-n) as nat)
    }
}

pub fn signed_text(n: i64) -> (r: String)
    ensures
        r@ == signed(n as int),
{
    if n >= 0 {
        decimal_text(n as u64)
    } else {
        let size: i128 = -(n as i128);
        let mut s = "-".to_owned();
        s.append(decimal_text(size as u64).as_str());
        s
    }
}

// --- what holds of texts --------------------------------------------------------------------

/// The number that decimal digits spell.
pub open spec fn spelled(s: Seq<char>) -> int
    decreases s.len(),
{
    if s.len() == 0 {
        0
    } else {
        spelled(s.drop_last()) * 10 + (s.last() as u32 - 48)
    }
}

/// The number that a text spells, with a sign or without one.
pub open spec fn spelled_signed(s: Seq<char>) -> int {
    if s.len() > 0 && s[0] == '-' {
        -spelled(s.skip(1))
    } else {
        spelled(s)
    }
}

/// A number is read back from its decimal digits, and these are nothing but digits.
pub proof fn decimal_is_read_back(n: nat)
    ensures
        spelled(decimal(n)) == n,
        decimal(n).len() > 0,
        forall|i: int| 0 <= i < decimal(n).len() ==> '0' <= #[trigger] decimal(n)[i] <= '9',
    decreases n,
{
    if n < 10 {
        assert(decimal(n).drop_last() =~= Seq::empty());
        assert(spelled(decimal(n).drop_last()) == 0);
    } else {
        decimal_is_read_back(n / 10);
        assert(decimal(n).drop_last() =~= decimal(n / 10));
    }
}

/// A number is read back from its text.
pub proof fn signed_is_read_back(n: int)
    ensures
        spelled_signed(signed(n)) == n,
{
    if n >= 0 {
        decimal_is_read_back(n as nat);
    } else {
        decimal_is_read_back((-n) as nat);
        reveal_strlit("-");
        assert(signed(n)[0] == '-');
        assert(signed(n).skip(1) =~= decimal((-n) as nat));
    }
}

/// Two characters are the same but for the case of ASCII letters.
pub open spec fn same_letter(a: char, b: char) -> bool {
    ||| a == b
    ||| 'A' <= a <= 'Z' && b as u32 == a as u32 + 32
    ||| 'A' <= b <= 'Z' && a as u32 == b as u32 + 32
}

/// Texts are the same ignoring case exactly if they are, character by character.
pub proof fn case_is_ignored(a: Seq<char>, b: Seq<char>)
    ensures
        same_ignoring_case(a, b) <==> a.len() == b.len() && forall|i: int|
            0 <= i < a.len() ==> same_letter(#[trigger] a[i], b[i]),
{
    if same_ignoring_case(a, b) {
        assert(lower(a).len() == a.len() && lower(b).len() == b.len());
        assert forall|i: int| 0 <= i < a.len() implies same_letter(#[trigger] a[i], b[i]) by {
            assert(lower(a)[i] == lower_char(a[i]));
            assert(lower(b)[i] == lower_char(b[i]));
        }
    }
    if a.len() == b.len() && forall|i: int| 0 <= i < a.len()
        ==> same_letter(#[trigger] a[i], b[i]) {
        assert(lower(a) =~= lower(b));
    }
}

// --- pieces and ends --------------------------------------------------------------------------

proof fn split_of_a_longer_text(s: Seq<char>, t: Seq<char>, c: char)
    requires
        !t.contains(c),
    ensures
        split(s + t, c) == split(s, c).drop_last().push(split(s, c).last() + t),
    decreases t.len(),
{
    split_is_not_empty(s, c);
    if t.len() == 0 {
        assert(s + t =~= s);
        assert(split(s, c).last() + t =~= split(s, c).last());
        assert(split(s, c).drop_last().push(split(s, c).last()) =~= split(s, c));
    } else {
        let u = t.drop_last();
        assert(t[t.len() - 1] == t.last());
        assert forall|i: int| 0 <= i < u.len() implies u[i] != c by {
            assert(t[i] == u[i]);
        }
        split_of_a_longer_text(s, u, c);
        assert((s + t).drop_last() =~= s + u);
        let before = split(s + u, c);
        assert(before.drop_last() =~= split(s, c).drop_last());
        assert((split(s, c).last() + u).push(t.last()) =~= split(s, c).last() + t);
    }
}

/// A text that is made of pieces with `c` between them is split into those pieces.
pub proof fn pieces_are_found(parts: Seq<Seq<char>>, c: char)
    requires
        parts.len() > 0,
        forall|i: int| 0 <= i < parts.len() ==> !(#[trigger] parts[i]).contains(c),
    ensures
        split(joined(parts, seq![c]), c) == parts,
    decreases parts.len(),
{
    let last = parts.last();
    assert(last == parts[parts.len() - 1]);
    if parts.len() == 1 {
        split_of_a_longer_text(Seq::empty(), last, c);
        assert(Seq::<char>::empty() + last =~= last);
        assert(split(Seq::empty(), c) =~= seq![Seq::empty()]);
        assert(split(last, c) =~= parts);
    } else {
        let front = parts.drop_last();
        assert forall|i: int| 0 <= i < front.len() implies !(#[trigger] front[i]).contains(c) by {
            assert(front[i] == parts[i]);
        }
        pieces_are_found(front, c);
        let s = joined(front, seq![c]) + seq![c];
        assert(s.drop_last() =~= joined(front, seq![c]));
        assert(split(s, c) == front.push(Seq::empty()));
        split_of_a_longer_text(s, last, c);
        assert(front.push(Seq::empty()).drop_last() =~= front);
        assert(Seq::<char>::empty() + last =~= last);
        assert(front.push(last) =~= parts);
    }
}

/// What is trimmed off a text is what stands at its ends, and no more.
pub proof fn ends_are_trimmed(what: Trim, before: Seq<char>, s: Seq<char>, after: Seq<char>)
    requires
        forall|i: int| 0 <= i < before.len() ==> is_trimmed(what, #[trigger] before[i]),
        forall|i: int| 0 <= i < after.len() ==> is_trimmed(what, #[trigger] after[i]),
        s.len() > 0 ==> !is_trimmed(what, s[0]) && !is_trimmed(what, s.last()),
    ensures
        trimmed(what, before + s + after) == s,
    decreases before.len() + after.len(),
{
    let all = before + s + after;
    if before.len() > 0 {
        assert(all[0] == before[0]);
        assert(all.skip(1) =~= before.skip(1) + s + after);
        ends_are_trimmed(what, before.skip(1), s, after);
    } else if after.len() > 0 {
        if s.len() > 0 {
            assert(all[0] == s[0]);
            assert(all.last() == after.last());
            assert(all.drop_last() =~= before + s + after.drop_last());
            ends_are_trimmed(what, before, s, after.drop_last());
        } else {
            assert(all[0] == after[0]);
            assert(all.skip(1) =~= before + s + after.skip(1));
            ends_are_trimmed(what, before, s, after.skip(1));
        }
    } else {
        assert(all =~= s);
    }
}

/// Whether `part` stands in `s` at `i`.
pub open spec fn holds_at(s: Seq<char>, part: Seq<char>, i: int) -> bool {
    0 <= i && i + part.len() <= s.len() && s.subrange(i, i + part.len()) == part
}

proof fn first_part_from(s: Seq<char>, part: Seq<char>, i: nat)
    ensures
        match part_from(s, part, i) {
            Some(n) => i <= n && holds_at(s, part, n as int) && forall|j: int|
                i <= j < n ==> !#[trigger] holds_at(s, part, j),
            None => forall|j: int| i <= j ==> !#[trigger] holds_at(s, part, j),
        },
    decreases s.len() + 1 - i,
{
    if i <= s.len() {
        let rest = s.skip(i as int);
        if rest.len() >= part.len() {
            assert(rest.take(part.len() as int) =~= s.subrange(i as int, (i + part.len()) as int));
        }
        if !starts_with(rest, part) {
            first_part_from(s, part, i + 1);
        }
    }
}

/// What is found is the first place where the part stands; nothing is found exactly if it stands
/// nowhere.
pub proof fn first_part_is_found(s: Seq<char>, part: Seq<char>)
    ensures
        match find_part(s, part) {
            Some(n) => holds_at(s, part, n as int) && forall|j: int|
                0 <= j < n ==> !#[trigger] holds_at(s, part, j),
            None => forall|j: int| 0 <= j ==> !#[trigger] holds_at(s, part, j),
        },
{
    first_part_from(s, part, 0);
}

/// A text begins with another exactly if it is that text with something behind it, and ends with
/// one
/// exactly if it is that text with something before it.
pub proof fn beginnings_and_ends(s: Seq<char>, part: Seq<char>)
    ensures
        starts_with(s, part) <==> exists|rest: Seq<char>| s == #[trigger] (part + rest),
        ends_with(s, part) <==> exists|rest: Seq<char>| s == #[trigger] (rest + part),
{
    let n = part.len() as int;
    if starts_with(s, part) {
        assert(s =~= part + s.skip(n));
    }
    if ends_with(s, part) {
        assert(s =~= s.take(s.len() - n) + part);
    }
    assert forall|rest: Seq<char>| s == #[trigger] (part + rest) implies starts_with(s, part) by {
        assert((part + rest).take(n) =~= part);
    }
    assert forall|rest: Seq<char>| s == #[trigger] (rest + part) implies ends_with(s, part) by {
        assert((rest + part).skip((rest + part).len() - n) =~= part);
    }
}

/// The pair that counts is the first one of its key.
pub proof fn first_pair_counts(pairs: Seq<(Seq<char>, Seq<char>)>, key: Seq<char>, i: int)
    requires
        0 <= i <= pairs.len(),
        forall|j: int| 0 <= j < i ==> (#[trigger] pairs[j]).0 != key,
        i < pairs.len() ==> pairs[i].0 == key,
    ensures
        paired_with(pairs, key) == if i < pairs.len() {
            Some(pairs[i].1)
        } else {
            None
        },
    decreases i,
{
    if i > 0 {
        let rest = pairs.skip(1);
        assert(pairs[0].0 != key);
        assert forall|j: int| 0 <= j < i - 1 implies (#[trigger] rest[j]).0 != key by {
            assert(rest[j] == pairs[j + 1]);
        }
        first_pair_counts(rest, key, i - 1);
    }
}

/// The small form of an ASCII text has no capitals and the capital form no small letters; otherwise
/// they are the text, letter by letter.
pub proof fn letters_change_their_case(s: Seq<char>, i: int)
    requires
        ascii(s),
        0 <= i < s.len(),
    ensures
        lowercased(s).len() == s.len(),
        uppercased(s).len() == s.len(),
        same_letter(lowercased(s)[i], s[i]),
        same_letter(uppercased(s)[i], s[i]),
        !('A' <= lowercased(s)[i] <= 'Z'),
        !('a' <= uppercased(s)[i] <= 'z'),
{
    assert(lowercased(s)[i] == lower_char(s[i]));
    assert(uppercased(s)[i] == upper_char(s[i]));
}

/// Blanks, tabs and the ends of lines are white space; letters, digits and what stands in names and
/// lists is not.
pub proof fn blanks_are_space(c: char)
    ensures
        c == ' ' || c == '\t' || c == '\n' || c == '\r' ==> is_space(c),
        'a' <= c <= 'z' || 'A' <= c <= 'Z' || '0' <= c <= '9' || '!' <= c <= '~' ==> !is_space(c),
{
}

} // verus!

//! Text helpers: verified counterparts of the string operations that the rest
//! of the library needs, stated over the characters of a string.
use vstd::prelude::*;
use vstd::utf8;

verus! {

/// `String::push`: appends one character at the end.
pub assume_specification[ String::push ](s: &mut String, c: char)
    ensures
        final(s)@ == old(s)@.push(c),
;

/// The text that bytes stand for where what is not UTF-8 in them is replaced.
pub uninterp spec fn lossy(bytes: Seq<u8>) -> Seq<char>;

/// The text that bytes stand for; what is not UTF-8 in them is replaced.
pub open spec fn readable(bytes: Seq<u8>) -> Seq<char> {
    if utf8::valid_utf8(bytes) {
        utf8::decode_utf8(bytes)
    } else {
        lossy(bytes)
    }
}

/// `String::from_utf8_lossy`: the text that the bytes stand for. Bytes that are
/// UTF-8 stand for the text that they encode; how the rest of other bytes is
/// replaced is not stated.
#[verifier::external_body]
pub(crate) fn from_utf8_lossy(bytes: &Vec<u8>) -> (r: String)
    ensures
        r@ == lossy(bytes@),
        utf8::valid_utf8(bytes@) ==> r@ == utf8::decode_utf8(bytes@),
{
    String::from_utf8_lossy(bytes).into_owned()
}

/// Whether two strings hold the same characters.
pub fn same(a: &str, b: &str) -> (r: bool)
    ensures
        r == (a@ == b@),
{
    a.to_string() == b.to_string()
}

/// The characters of `s`, in order.
pub fn chars_of(s: &str) -> (r: Vec<char>)
    ensures
        r@ == s@,
{
    let mut out: Vec<char> = Vec::new();
    for c in it: s.chars()
        invariant
            out@ == it.seq().take(it.index() as int),
            it.seq() == s@,
    {
        out.push(c);
        proof {
            assert(out@ =~= it.seq().take(it.index() as int + 1));
        }
    }
    proof {
        assert(out@ =~= s@);
    }
    out
}

/// Position `i` decides that `a` stands before `b`: the two agree up to `i`,
/// and there `a` ends or has the smaller character.
pub open spec fn decides(a: Seq<char>, b: Seq<char>, i: int) -> bool {
    &&& 0 <= i <= a.len()
    &&& i < b.len()
    &&& forall|j: int| 0 <= j < i ==> #[trigger] a[j] == b[j]
    &&& i == a.len() || (a[i] as int) < (b[i] as int)
}

/// Dictionary order by code point, which is the order of the UTF-8 bytes and
/// so the order of `str` itself.
pub open spec fn before(a: Seq<char>, b: Seq<char>) -> bool {
    exists|i: int| #[trigger] decides(a, b, i)
}

/// The first character in which two texts differ decides their order: the one with the
/// smaller character stands first. A text stands before every longer one that begins
/// with it.
pub proof fn first_difference_decides(
    shared: Seq<char>,
    c: char,
    d: char,
    x: Seq<char>,
    y: Seq<char>,
)
    ensures
        (c as int) < (d as int) ==> before(shared + seq![c] + x, shared + seq![d] + y) && !before(
            shared + seq![d] + y,
            shared + seq![c] + x,
        ),
        before(shared, shared + seq![c] + x),
        !before(shared + seq![c] + x, shared),
{
    let n = shared.len() as int;
    let a = shared + seq![c] + x;
    let b = shared + seq![d] + y;
    assert forall|j: int| 0 <= j < n implies #[trigger] a[j] == b[j] by {}
    assert(a[n] == c && b[n] == d);
    if (c as int) < (d as int) {
        assert(decides(a, b, n));
        before_is_asymmetric(a, b);
    }
    assert(decides(shared, a, n));
    before_is_asymmetric(shared, a);
}

/// No text stands before itself.
pub proof fn before_is_irreflexive(a: Seq<char>)
    ensures
        !before(a, a),
{
    assert forall|i: int| !(#[trigger] decides(a, a, i)) by {}
}

/// The order is transitive.
pub proof fn before_is_transitive(a: Seq<char>, b: Seq<char>, c: Seq<char>)
    requires
        before(a, b),
        before(b, c),
    ensures
        before(a, c),
{
    let i = choose|i: int| #[trigger] decides(a, b, i);
    let k = choose|k: int| #[trigger] decides(b, c, k);
    let m = if i < k { i } else { k };
    assert forall|j: int| 0 <= j < m implies #[trigger] a[j] == c[j] by {
        assert(a[j] == b[j]);
        assert(b[j] == c[j]);
    }
    if i < k && i < a.len() {
        assert(b[i] == c[i]);
    }
    if k < i {
        assert(a[k] == b[k]);
    }
    assert(decides(a, c, m));
}

/// No two texts stand each before the other.
pub proof fn before_is_asymmetric(a: Seq<char>, b: Seq<char>)
    requires
        before(a, b),
    ensures
        !before(b, a),
        a != b,
{
    if before(b, a) {
        before_is_transitive(a, b, a);
    }
    before_is_irreflexive(a);
}

/// Of two different texts one stands before the other.
pub proof fn before_is_total(a: Seq<char>, b: Seq<char>)
    ensures
        a == b || before(a, b) || before(b, a),
{
    total_from(a, b, 0);
}

proof fn total_from(a: Seq<char>, b: Seq<char>, i: int)
    requires
        0 <= i <= a.len(),
        i <= b.len(),
        forall|j: int| 0 <= j < i ==> #[trigger] a[j] == b[j],
    ensures
        a == b || before(a, b) || before(b, a),
    decreases a.len() - i,
{
    if i == a.len() && i == b.len() {
        assert(a =~= b);
    } else if i == a.len() {
        assert(decides(a, b, i));
    } else if i == b.len() {
        assert(decides(b, a, i));
    } else if a[i] == b[i] {
        total_from(a, b, i + 1);
    } else if (a[i] as int) < (b[i] as int) {
        assert(decides(a, b, i));
    } else {
        assert(decides(b, a, i));
    }
}

/// The number of a character.
pub fn code_point(c: char) -> (r: u32)
    ensures
        r as int == c as int,
{
    c as u32
}

/// Whether `a` stands before `b` in dictionary order.
pub fn is_before(a: &str, b: &str) -> (r: bool)
    ensures
        r == before(a@, b@),
{
    let x: Vec<char> = chars_of(a);
    let y: Vec<char> = chars_of(b);
    let mut i: usize = 0;
    while i < x.len() && i < y.len()
        invariant
            x@ == a@,
            y@ == b@,
            0 <= i <= x@.len(),
            i <= y@.len(),
            forall|j: int| 0 <= j < i ==> #[trigger] x@[j] == y@[j],
        decreases x.len() - i,
    {
        let c: u32 = code_point(x[i]);
        let d: u32 = code_point(y[i]);
        if c < d {
            proof {
                assert(decides(a@, b@, i as int));
            }
            return true;
        }
        if d < c {
            proof {
                assert(decides(b@, a@, i as int));
                before_is_asymmetric(b@, a@);
            }
            return false;
        }
        i += 1;
    }
    proof {
        if i < y@.len() {
            assert(decides(a@, b@, i as int));
        } else {
            if i < x@.len() {
                assert(decides(b@, a@, i as int));
                before_is_asymmetric(b@, a@);
            } else {
                assert(a@ =~= b@);
                before_is_irreflexive(a@);
            }
        }
    }
    i < y.len()
}

/// Two texts one after the other.
pub fn cat2(a: &str, b: &str) -> (r: String)
    ensures
        r@ == a@ + b@,
{
    let mut out: String = a.to_owned();
    out.append(b);
    out
}

/// Three texts one after the other.
pub fn cat3(a: &str, b: &str, c: &str) -> (r: String)
    ensures
        r@ == a@ + b@ + c@,
{
    let mut out: String = a.to_owned();
    out.append(b);
    out.append(c);
    out
}

/// Four texts one after the other.
pub fn cat4(a: &str, b: &str, c: &str, d: &str) -> (r: String)
    ensures
        r@ == a@ + b@ + c@ + d@,
{
    let mut out: String = a.to_owned();
    out.append(b);
    out.append(c);
    out.append(d);
    out
}

/// Five texts one after the other.
pub fn cat5(a: &str, b: &str, c: &str, d: &str, e: &str) -> (r: String)
    ensures
        r@ == a@ + b@ + c@ + d@ + e@,
{
    let mut out: String = a.to_owned();
    out.append(b);
    out.append(c);
    out.append(d);
    out.append(e);
    out
}

/// Seven texts one after the other.
pub fn cat7(a: &str, b: &str, c: &str, d: &str, e: &str, f: &str, g: &str) -> (r: String)
    ensures
        r@ == a@ + b@ + c@ + d@ + e@ + f@ + g@,
{
    let mut out: String = a.to_owned();
    out.append(b);
    out.append(c);
    out.append(d);
    out.append(e);
    out.append(f);
    out.append(g);
    out
}

/// Whether `s` begins with `prefix`.
pub fn starts_with(s: &str, prefix: &str) -> (r: bool)
    ensures
        r == prefix@.is_prefix_of(s@),
{
    let n: usize = prefix.unicode_len();
    if s.unicode_len() < n {
        return false;
    }
    let head: &str = s.substring_char(0, n);
    assert(head@ == s@.take(prefix@.len() as int));
    same(head, prefix)
}

/// Whether `item` is one of `items`.
pub fn contains(items: &Vec<String>, item: &str) -> (r: bool)
    ensures
        r == items.deep_view().contains(item@),
{
    let mut i: usize = 0;
    while i < items.len()
        invariant
            i <= items@.len(),
            forall|j: int| 0 <= j < i ==> (#[trigger] items@[j])@ != item@,
        decreases items@.len() - i,
    {
        if same(items[i].as_str(), item) {
            assert(items.deep_view()[i as int] == item@);
            return true;
        }
        i += 1;
    }
    assert forall|j: int| 0 <= j < items.deep_view().len() implies items.deep_view()[j]
        != item@ by {
        assert(items.deep_view()[j] == items@[j]@);
    }
    false
}

/// The items with `sep` between neighbours.
pub open spec fn joined(items: Seq<Seq<char>>, sep: Seq<char>) -> Seq<char>
    decreases items.len(),
{
    if items.len() == 0 {
        Seq::empty()
    } else if items.len() == 1 {
        items[0]
    } else {
        joined(items.drop_last(), sep) + sep + items.last()
    }
}

/// Joins the items, with `sep` between neighbours.
pub fn join(items: &Vec<String>, sep: &str) -> (r: String)
    ensures
        r@ == joined(items.deep_view(), sep@),
{
    let mut out: String = String::new();
    let mut i: usize = 0;
    proof {
        assert(items.deep_view().take(0) =~= Seq::<Seq<char>>::empty());
        assert(out@ =~= Seq::<char>::empty());
    }
    while i < items.len()
        invariant
            i <= items@.len(),
            out@ == joined(items.deep_view().take(i as int), sep@),
        decreases items@.len() - i,
    {
        if i > 0 {
            out.append(sep);
        }
        out.append(items[i].as_str());
        proof {
            let now = items.deep_view().take(i + 1);
            assert(now.drop_last() =~= items.deep_view().take(i as int));
            assert(now.last() == items@[i as int]@);
            if i == 0 {
                assert(out@ =~= now[0]);
            }
        }
        i += 1;
    }
    proof {
        assert(items.deep_view().take(i as int) =~= items.deep_view());
    }
    out
}

/// Every item stands in the joined text.
pub proof fn joined_holds_each(items: Seq<Seq<char>>, sep: Seq<char>, i: int)
    requires
        0 <= i < items.len(),
    ensures
        exists|before: Seq<char>, after: Seq<char>|
            joined(items, sep) == #[trigger] (before + items[i] + after),
    decreases items.len(),
{
    let none = Seq::<char>::empty();
    if items.len() == 1 {
        assert(joined(items, sep) =~= none + items[i] + none);
    } else if i == items.len() - 1 {
        let before = joined(items.drop_last(), sep) + sep;
        assert(joined(items, sep) =~= before + items[i] + none);
    } else {
        joined_holds_each(items.drop_last(), sep, i);
        let (before, after) = choose|before: Seq<char>, after: Seq<char>|
            joined(items.drop_last(), sep) == #[trigger] (before + items.drop_last()[i] + after);
        assert(joined(items, sep) =~= before + items[i] + (after + sep + items.last()));
    }
}

/// Joined texts can be joined in parts: with the separator between the two parts where
/// neither is empty. A single text stays as it is.
pub proof fn joining_in_parts(first: Seq<Seq<char>>, second: Seq<Seq<char>>, sep: Seq<char>)
    ensures
        first.len() > 0 && second.len() > 0 ==> joined(first + second, sep) == joined(first, sep)
            + sep + joined(second, sep),
        first.len() == 1 ==> joined(first, sep) == first[0],
        first.len() == 0 ==> joined(first, sep).len() == 0,
    decreases second.len(),
{
    if first.len() > 0 && second.len() > 0 {
        let all = first + second;
        let fewer = second.drop_last();
        assert(all.drop_last() =~= first + fewer);
        assert(all.last() == second.last());
        if fewer.len() == 0 {
            assert(first + fewer =~= first);
        } else {
            joining_in_parts(first, fewer, sep);
            assert(joined(all, sep) =~= joined(first, sep) + sep + joined(second, sep));
        }
    }
}

/// A copy of the items.
pub fn copy_all(items: &Vec<String>) -> (r: Vec<String>)
    ensures
        r.deep_view() == items.deep_view(),
        r@ == items@,
{
    let mut out: Vec<String> = Vec::new();
    let mut i: usize = 0;
    while i < items.len()
        invariant
            i <= items@.len(),
            out@ == items@.take(i as int),
        decreases items@.len() - i,
    {
        out.push(items[i].clone());
        i += 1;
        assert(out@ =~= items@.take(i as int));
    }
    assert(out@ =~= items@);
    assert(out.deep_view() =~= items.deep_view());
    out
}

/// White space as Unicode has it.
pub open spec fn is_space(c: char) -> bool {
    let n = c as int;
    ||| 0x09 <= n <= 0x0d
    ||| n == 0x20
    ||| n == 0x85
    ||| n == 0xa0
    ||| n == 0x1680
    ||| 0x2000 <= n <= 0x200a
    ||| n == 0x2028
    ||| n == 0x2029
    ||| n == 0x202f
    ||| n == 0x205f
    ||| n == 0x3000
}

/// Whether a character is white space.
pub fn is_white(c: char) -> (r: bool)
    ensures
        r == is_space(c),
{
    let n: u32 = code_point(c);
    (0x09 <= n && n <= 0x0d) || n == 0x20 || n == 0x85 || n == 0xa0 || n == 0x1680 || (0x2000 <= n
        && n <= 0x200a) || n == 0x2028 || n == 0x2029 || n == 0x202f || n == 0x205f || n == 0x3000
}

/// Without the white space at the start.
pub open spec fn trimmed_start(s: Seq<char>) -> Seq<char>
    decreases s.len(),
{
    if s.len() > 0 && is_space(s[0]) {
        trimmed_start(s.skip(1))
    } else {
        s
    }
}

/// Without the white space at the end.
pub open spec fn trimmed_end(s: Seq<char>) -> Seq<char>
    decreases s.len(),
{
    if s.len() > 0 && is_space(s.last()) {
        trimmed_end(s.drop_last())
    } else {
        s
    }
}

/// Without the white space at either end.
pub open spec fn trimmed(s: Seq<char>) -> Seq<char> {
    trimmed_end(trimmed_start(s))
}

/// Nothing but white space.
pub open spec fn is_blank(s: Seq<char>) -> bool {
    forall|i: int| 0 <= i < s.len() ==> is_space(#[trigger] s[i])
}

/// White space round a text that neither begins nor ends with any is what trimming
/// takes away.
pub proof fn blanks_are_trimmed(before: Seq<char>, core: Seq<char>, after: Seq<char>)
    requires
        is_blank(before),
        is_blank(after),
        core.len() > 0,
        !is_space(core[0]),
        !is_space(core.last()),
    ensures
        trimmed(before + core + after) == core,
    decreases before.len() + after.len(),
{
    let whole = before + core + after;
    if before.len() > 0 {
        assert(whole[0] == before[0]);
        assert(whole.skip(1) =~= before.skip(1) + core + after);
        blanks_are_trimmed(before.skip(1), core, after);
    } else {
        assert(whole =~= core + after);
        assert(whole[0] == core[0]);
        if after.len() > 0 {
            let fewer = after.drop_last();
            assert(whole.last() == after.last());
            assert(whole.drop_last() =~= before + core + fewer);
            assert((before + core + fewer)[0] == core[0]);
            blanks_are_trimmed(before, core, fewer);
        } else {
            assert(whole =~= core);
        }
    }
}

/// What trimming leaves is a part of the text that neither begins nor ends with white
/// space, and what it takes away on either side is nothing but white space.
pub proof fn trimming_takes_only_blanks(s: Seq<char>) -> (r: (Seq<char>, Seq<char>))
    ensures
        s == r.0 + trimmed(s) + r.1,
        is_blank(r.0),
        is_blank(r.1),
        trimmed(s).len() > 0 ==> !is_space(trimmed(s)[0]) && !is_space(trimmed(s).last()),
    decreases s.len(),
{
    if s.len() > 0 && is_space(s[0]) {
        let r = trimming_takes_only_blanks(s.skip(1));
        let before = seq![s[0]] + r.0;
        assert(s =~= seq![s[0]] + s.skip(1));
        assert(s =~= before + trimmed(s) + r.1);
        (before, r.1)
    } else {
        let after = end_is_blank(s);
        assert(s =~= Seq::<char>::empty() + trimmed(s) + after);
        if trimmed(s).len() > 0 {
            assert(trimmed(s)[0] == s[0]);
        }
        (Seq::empty(), after)
    }
}

proof fn end_is_blank(s: Seq<char>) -> (r: Seq<char>)
    ensures
        s == trimmed_end(s) + r,
        is_blank(r),
        trimmed_end(s).len() > 0 ==> !is_space(trimmed_end(s).last()),
    decreases s.len(),
{
    if s.len() > 0 && is_space(s.last()) {
        let r = end_is_blank(s.drop_last());
        assert(s =~= s.drop_last().push(s.last()));
        assert(s =~= trimmed_end(s) + r.push(s.last()));
        r.push(s.last())
    } else {
        assert(s =~= trimmed_end(s) + Seq::<char>::empty());
        Seq::empty()
    }
}

/// Trimming leaves nothing of a text exactly where it is nothing but white space.
pub proof fn blank_texts_are_trimmed_to_nothing(s: Seq<char>)
    ensures
        trimmed(s).len() == 0 <==> is_blank(s),
{
    let (before, after) = trimming_takes_only_blanks(s);
    if trimmed(s).len() > 0 {
        assert(s[before.len() as int] == trimmed(s)[0]);
    } else {
        assert forall|i: int| 0 <= i < s.len() implies is_space(#[trigger] s[i]) by {
            if i < before.len() {
                assert(s[i] == before[i]);
            } else {
                assert(s[i] == after[i - before.len()]);
            }
        }
    }
}

/// The text without the white space at either end.
pub fn trim(s: &str) -> (r: &str)
    ensures
        r@ == trimmed(s@),
{
    let chars: Vec<char> = chars_of(s);
    let mut from: usize = 0;
    assert(s@.skip(0) =~= s@);
    while from < chars.len() && is_white(chars[from])
        invariant
            from <= chars@.len(),
            chars@ == s@,
            trimmed_start(s@.skip(from as int)) == trimmed_start(s@),
        ensures
            from <= chars@.len(),
            from == chars@.len() || !is_space(chars@[from as int]),
            trimmed_start(s@.skip(from as int)) == trimmed_start(s@),
        decreases chars@.len() - from,
    {
        assert(s@.skip(from as int).skip(1) =~= s@.skip(from + 1));
        from += 1;
    }
    let ghost start = s@.skip(from as int);
    assert(trimmed_start(s@) == start);
    let mut to: usize = chars.len();
    assert(s@.subrange(from as int, to as int) =~= start);
    while from < to && is_white(chars[to - 1])
        invariant
            from <= to <= chars@.len(),
            chars@ == s@,
            trimmed_end(s@.subrange(from as int, to as int)) == trimmed_end(start),
        ensures
            from <= to <= chars@.len(),
            from == to || !is_space(chars@[to - 1]),
            trimmed_end(s@.subrange(from as int, to as int)) == trimmed_end(start),
        decreases to,
    {
        assert(s@.subrange(from as int, to as int).drop_last() =~= s@.subrange(
            from as int,
            to - 1,
        ));
        to -= 1;
    }
    assert(trimmed_end(start) == s@.subrange(from as int, to as int));
    s.substring_char(from, to)
}

/// The decimal digit of a number below ten.
pub open spec fn digit(d: int) -> char {
    if d == 0 {
        '0'
    } else if d == 1 {
        '1'
    } else if d == 2 {
        '2'
    } else if d == 3 {
        '3'
    } else if d == 4 {
        '4'
    } else if d == 5 {
        '5'
    } else if d == 6 {
        '6'
    } else if d == 7 {
        '7'
    } else if d == 8 {
        '8'
    } else {
        '9'
    }
}

/// A number in decimal, without leading zeros.
pub open spec fn decimal(n: nat) -> Seq<char>
    decreases n,
{
    if n < 10 {
        seq![digit(n as int)]
    } else {
        decimal(n / 10).push(digit((n % 10) as int))
    }
}

fn digit_char(d: u64) -> (r: char)
    requires
        d < 10,
    ensures
        r == digit(d as int),
{
    if d == 0 {
        '0'
    } else if d == 1 {
        '1'
    } else if d == 2 {
        '2'
    } else if d == 3 {
        '3'
    } else if d == 4 {
        '4'
    } else if d == 5 {
        '5'
    } else if d == 6 {
        '6'
    } else if d == 7 {
        '7'
    } else if d == 8 {
        '8'
    } else {
        '9'
    }
}

/// Writes a number in decimal.
pub fn decimal_of(n: u64) -> (r: String)
    ensures
        r@ == decimal(n as nat),
    decreases n,
{
    if n < 10 {
        let mut out: String = String::new();
        out.push(digit_char(n));
        assert(out@ =~= seq![digit(n as int)]);
        out
    } else {
        let mut out: String = decimal_of(n / 10);
        out.push(digit_char(n % 10));
        out
    }
}

/// `part` stands in `s` at position `i`.
pub open spec fn stands_at(s: Seq<char>, part: Seq<char>, i: int) -> bool {
    0 <= i && i + part.len() <= s.len() && s.subrange(i, i + part.len()) == part
}

/// `part` stands somewhere in `s`.
pub open spec fn has_part(s: Seq<char>, part: Seq<char>) -> bool {
    exists|i: int| stands_at(s, part, i)
}

/// Whether `part` stands somewhere in `s`.
pub fn contains_text(s: &str, part: &str) -> (r: bool)
    ensures
        r == has_part(s@, part@),
{
    let n: usize = s.unicode_len();
    let m: usize = part.unicode_len();
    if n < m {
        return false;
    }
    let mut i: usize = 0;
    while i <= n - m
        invariant
            n == s@.len(),
            m == part@.len(),
            m <= n,
            i <= n - m + 1,
            forall|j: int| 0 <= j < i ==> !(#[trigger] stands_at(s@, part@, j)),
        decreases n + 1 - i,
    {
        if same(s.substring_char(i, i + m), part) {
            assert(stands_at(s@, part@, i as int));
            return true;
        }
        if i == n - m {
            assert forall|j: int| !(#[trigger] stands_at(s@, part@, j)) by {}
            return false;
        }
        i += 1;
    }
    false
}

/// A decimal digit.
pub open spec fn is_digit(c: char) -> bool {
    48 <= c as int <= 57
}

/// The number that decimal digits stand for.
pub open spec fn digits_value(s: Seq<char>) -> nat
    decreases s.len(),
{
    if s.len() == 0 {
        0
    } else {
        (digits_value(s.drop_last()) * 10 + (s.last() as int - 48)) as nat
    }
}

/// The digits of a number, without a leading plus sign.
pub open spec fn unsigned_digits(s: Seq<char>) -> Seq<char> {
    if s.len() > 0 && s[0] == '+' {
        s.skip(1)
    } else {
        s
    }
}

/// The number that a text stands for: decimal digits, at least one, perhaps
/// behind a plus sign, and not more than fits.
pub open spec fn number_of(s: Seq<char>) -> Option<u64> {
    let digits = unsigned_digits(s);
    if digits.len() > 0 && (forall|i: int| 0 <= i < digits.len() ==> is_digit(#[trigger] digits[i]))
        && digits_value(digits) <= u64::MAX {
        Some(digits_value(digits) as u64)
    } else {
        None
    }
}

proof fn value_grows(s: Seq<char>, n: int)
    requires
        0 <= n <= s.len(),
        forall|i: int| 0 <= i < s.len() ==> is_digit(#[trigger] s[i]),
    ensures
        digits_value(s.take(n)) <= digits_value(s),
    decreases s.len() - n,
{
    if n == s.len() {
        assert(s.take(n) =~= s);
    } else {
        value_grows(s, n + 1);
        assert(s.take(n + 1).drop_last() =~= s.take(n));
        assert(is_digit(s[n]));
        assert(s.take(n + 1).last() == s[n]);
    }
}

/// Reads a number.
pub fn parse_number(s: &str) -> (r: Option<u64>)
    ensures
        r == number_of(s@),
{
    let chars: Vec<char> = chars_of(s);
    let from: usize = if chars.len() > 0 && chars[0] == '+' {
        1
    } else {
        0
    };
    let ghost digits = unsigned_digits(s@);
    proof {
        assert(digits =~= s@.skip(from as int));
    }
    if from == chars.len() {
        return None;
    }
    let mut value: u64 = 0;
    let mut i: usize = from;
    proof {
        assert(digits.take(0) =~= Seq::<char>::empty());
    }
    while i < chars.len()
        invariant
            from <= i <= chars@.len(),
            chars@ == s@,
            digits == s@.skip(from as int),
            digits == unsigned_digits(s@),
            value == digits_value(digits.take(i - from)),
            forall|j: int| 0 <= j < i - from ==> is_digit(#[trigger] digits[j]),
        decreases chars@.len() - i,
    {
        let n: u32 = code_point(chars[i]);
        let ghost k = i - from;
        assert(digits[k] == chars@[i as int]);
        if n < 48 || 57 < n {
            assert(!is_digit(digits[k]));
            return None;
        }
        let d: u64 = (n - 48) as u64;
        proof {
            assert(digits.take(k + 1).drop_last() =~= digits.take(k));
            assert(digits.take(k + 1).last() == digits[k]);
        }
        if value > u64::MAX / 10 || (value == u64::MAX / 10 && d > u64::MAX % 10) {
            proof {
                assert(digits_value(digits.take(k + 1)) > u64::MAX);
                if forall|j: int| 0 <= j < digits.len() ==> is_digit(#[trigger] digits[j]) {
                    value_grows(digits, k + 1);
                }
            }
            return None;
        }
        value = value * 10 + d;
        i += 1;
    }
    proof {
        assert(digits.take(i - from) =~= digits);
    }
    Some(value)
}

/// Copies a text that may be missing.
pub fn copy_optional(s: &Option<String>) -> (r: Option<String>)
    ensures
        r.deep_view() == s.deep_view(),
{
    match s {
        Some(s) => Some(s.clone()),
        None => None,
    }
}

/// Whether two texts that may be missing are the same.
pub fn same_optional(a: &Option<String>, b: &Option<String>) -> (r: bool)
    ensures
        r == (a.deep_view() == b.deep_view()),
{
    match (a, b) {
        (Some(a), Some(b)) => same(a.as_str(), b.as_str()),
        (None, None) => true,
        _ => false,
    }
}

/// The number of bytes of a text.
pub open spec fn byte_len(s: Seq<char>) -> nat {
    vstd::utf8::encode_utf8(s).len()
}

/// The bytes of two texts one after the other are those of the one and of the
/// other.
pub proof fn byte_len_adds(a: Seq<char>, b: Seq<char>)
    ensures
        vstd::utf8::encode_utf8(a + b) == vstd::utf8::encode_utf8(a) + vstd::utf8::encode_utf8(b),
        byte_len(a + b) == byte_len(a) + byte_len(b),
    decreases a.len(),
{
    if a.len() == 0 {
        assert(a + b =~= b);
        assert(vstd::utf8::encode_utf8(a) =~= Seq::<u8>::empty());
        assert(vstd::utf8::encode_utf8(a) + vstd::utf8::encode_utf8(b)
            =~= vstd::utf8::encode_utf8(b));
    } else {
        byte_len_adds(a.drop_first(), b);
        assert((a + b).drop_first() =~= a.drop_first() + b);
        assert((a + b)[0] == a[0]);
        assert(vstd::utf8::encode_utf8(a + b) =~= vstd::utf8::encode_utf8(a)
            + vstd::utf8::encode_utf8(b));
    }
}

/// How many bytes a text takes.
pub fn count_bytes(s: &str) -> (r: usize)
    ensures
        r == byte_len(s@),
{
    s.as_bytes().len()
}

/// The text without as many characters at its end as it takes for the rest to fit
/// into `max` bytes.
pub open spec fn shortened(s: Seq<char>, max: nat) -> Seq<char>
    decreases s.len(),
{
    if byte_len(s) <= max || s.len() == 0 {
        s
    } else {
        shortened(s.drop_last(), max)
    }
}

/// Shortens a text to whole characters that fit into `max` bytes.
pub fn shorten(s: &str, max: usize) -> (r: &str)
    ensures
        r@ == shortened(s@, max as nat),
{
    let mut n: usize = s.unicode_len();
    assert(s@.subrange(0, n as int) =~= s@);
    while n > 0 && count_bytes(s.substring_char(0, n)) > max
        invariant
            n <= s@.len(),
            shortened(s@.subrange(0, n as int), max as nat) == shortened(s@, max as nat),
        ensures
            n <= s@.len(),
            n == 0 || byte_len(s@.subrange(0, n as int)) <= max,
            shortened(s@.subrange(0, n as int), max as nat) == shortened(s@, max as nat),
        decreases n,
    {
        assert(s@.subrange(0, n as int).drop_last() =~= s@.subrange(0, n - 1));
        n -= 1;
    }
    s.substring_char(0, n)
}

/// A shortened text fits.
pub proof fn shortened_fits(s: Seq<char>, max: nat)
    ensures
        byte_len(shortened(s, max)) <= max,
        byte_len(s) <= max ==> shortened(s, max) == s,
        shortened(s, max).is_prefix_of(s),
    decreases s.len(),
{
    if byte_len(s) > max && s.len() > 0 {
        shortened_fits(s.drop_last(), max);
        assert(s.drop_last() =~= s.take(s.len() - 1));
    } else if s.len() == 0 {
        assert(vstd::utf8::encode_utf8(s) =~= Seq::<u8>::empty());
    }
    assert(s =~= s.take(s.len() as int));
}

/// The text with every occurrence of `from` replaced, where they are taken one
/// after the other from the beginning. An empty `from` occurs nowhere.
pub open spec fn replaced(s: Seq<char>, from: Seq<char>, to: Seq<char>) -> Seq<char>
    decreases s.len(),
{
    if s.len() == 0 || from.len() == 0 {
        s
    } else if from.is_prefix_of(s) {
        to + replaced(s.skip(from.len() as int), from, to)
    } else {
        Seq::empty().push(s[0]) + replaced(s.skip(1), from, to)
    }
}

/// Whether `part` stands at position `i` of the characters.
fn stands_here(chars: &Vec<char>, part: &Vec<char>, i: usize) -> (r: bool)
    requires
        i <= chars@.len(),
    ensures
        r == part@.is_prefix_of(chars@.skip(i as int)),
{
    if part.len() > chars.len() - i {
        return false;
    }
    let mut k: usize = 0;
    while k < part.len()
        invariant
            k <= part@.len(),
            i + part@.len() <= chars.len(),
            forall|j: int| 0 <= j < k ==> #[trigger] part@[j] == chars@[i + j],
        decreases part@.len() - k,
    {
        if chars[i + k] != part[k] {
            proof {
                if part@.is_prefix_of(chars@.skip(i as int)) {
                    assert(part@ =~= chars@.skip(i as int).subrange(0, part@.len() as int));
                    assert(part@[k as int] == chars@.skip(i as int)[k as int]);
                }
            }
            return false;
        }
        k += 1;
    }
    proof {
        assert(part@ =~= chars@.skip(i as int).subrange(0, part@.len() as int));
    }
    true
}

/// Replaces every occurrence of `from`.
pub fn replace(s: &str, from: &str, to: &str) -> (r: String)
    requires
        from@.len() > 0,
    ensures
        r@ == replaced(s@, from@, to@),
{
    let chars: Vec<char> = chars_of(s);
    let part: Vec<char> = chars_of(from);
    let mut out: String = String::new();
    let mut i: usize = 0;
    proof {
        assert(s@.skip(0) =~= s@);
        assert(Seq::<char>::empty() + replaced(s@, from@, to@) =~= replaced(s@, from@, to@));
    }
    while i < chars.len()
        invariant
            i <= chars@.len(),
            chars@ == s@,
            part@ == from@,
            from@.len() > 0,
            out@ + replaced(s@.skip(i as int), from@, to@) == replaced(s@, from@, to@),
        decreases chars@.len() - i,
    {
        let ghost rest = s@.skip(i as int);
        let ghost so_far = out@;
        if stands_here(&chars, &part, i) {
            proof {
                assert(rest.skip(from@.len() as int) =~= s@.skip(i + from@.len()));
            }
            out.append(to);
            i += part.len();
        } else {
            proof {
                assert(rest[0] == s@[i as int]);
                assert(rest.skip(1) =~= s@.skip(i + 1));
            }
            out.push(chars[i]);
            i += 1;
        }
        proof {
            assert(out@ + replaced(s@.skip(i as int), from@, to@) =~= so_far + replaced(
                rest,
                from@,
                to@,
            ));
        }
    }
    proof {
        assert(out@ + replaced(s@.skip(i as int), from@, to@) =~= out@);
    }
    out
}

/// The parts of a text between the occurrences of a character. There is at least
/// one part.
pub open spec fn parts(s: Seq<char>, at: char) -> Seq<Seq<char>>
    decreases s.len(),
{
    if s.len() == 0 {
        Seq::empty().push(Seq::empty())
    } else {
        let before = parts(s.drop_last(), at);
        if s.last() == at {
            before.push(Seq::empty())
        } else {
            before.update(before.len() - 1, before.last().push(s.last()))
        }
    }
}

/// Splits a text at a character.
pub fn split(s: &str, at: char) -> (r: Vec<String>)
    ensures
        r.deep_view() == parts(s@, at),
        r@.len() > 0,
{
    let chars: Vec<char> = chars_of(s);
    let mut out: Vec<String> = Vec::new();
    let mut part: String = String::new();
    let mut i: usize = 0;
    proof {
        assert(s@.take(0) =~= Seq::<char>::empty());
        assert(out.deep_view().push(part@) =~= parts(s@.take(0), at));
    }
    while i < chars.len()
        invariant
            i <= chars@.len(),
            chars@ == s@,
            out.deep_view().push(part@) == parts(s@.take(i as int), at),
        decreases chars@.len() - i,
    {
        let ghost so_far = out.deep_view();
        let ghost open_part = part@;
        proof {
            assert(s@.take(i + 1).drop_last() =~= s@.take(i as int));
            assert(s@.take(i + 1).last() == s@[i as int]);
        }
        if chars[i] == at {
            out.push(part);
            part = String::new();
            proof {
                assert(out.deep_view() =~= so_far.push(open_part));
                assert(out.deep_view().push(part@) =~= parts(s@.take(i + 1), at));
            }
        } else {
            part.push(chars[i]);
            proof {
                assert(out.deep_view().push(part@) =~= parts(s@.take(i + 1), at));
            }
        }
        i += 1;
    }
    let ghost so_far = out.deep_view();
    let ghost last = part@;
    out.push(part);
    proof {
        assert(s@.take(i as int) =~= s@);
        assert(out.deep_view() =~= so_far.push(last));
    }
    out
}

/// A text without the part to be replaced stays as it is.
pub proof fn nothing_to_replace(s: Seq<char>, from: Seq<char>, to: Seq<char>)
    requires
        !has_part(s, from),
    ensures
        replaced(s, from, to) == s,
    decreases s.len(),
{
    if s.len() > 0 && from.len() > 0 {
        if from.is_prefix_of(s) {
            assert(s.subrange(0, from.len() as int) =~= from);
            assert(stands_at(s, from, 0));
        }
        let rest = s.skip(1);
        assert forall|i: int| !stands_at(rest, from, i) by {
            if stands_at(rest, from, i) {
                assert(s.subrange(i + 1, i + 1 + from.len()) =~= rest.subrange(
                    i,
                    i + from.len(),
                ));
                assert(stands_at(s, from, i + 1));
            }
        }
        nothing_to_replace(rest, from, to);
        assert(Seq::<char>::empty().push(s[0]) + rest =~= s);
    }
}

/// The first occurrence of the part is replaced, what stands before it stays, and what
/// stands behind it is treated in the same way.
pub proof fn first_part_is_replaced(
    before: Seq<char>,
    from: Seq<char>,
    after: Seq<char>,
    to: Seq<char>,
)
    requires
        from.len() > 0,
        forall|i: int| 0 <= i < before.len() ==> !stands_at(before + from + after, from, i),
    ensures
        replaced(before + from + after, from, to) == before + to + replaced(after, from, to),
    decreases before.len(),
{
    let whole = before + from + after;
    if before.len() == 0 {
        assert(whole =~= from + after);
        assert(from =~= whole.take(from.len() as int));
        assert(whole.skip(from.len() as int) =~= after);
        assert(before + to + replaced(after, from, to) =~= to + replaced(after, from, to));
    } else {
        if from.is_prefix_of(whole) {
            assert(whole.subrange(0, from.len() as int) =~= from);
            assert(stands_at(whole, from, 0));
        }
        let fewer = before.skip(1);
        let rest = fewer + from + after;
        assert(whole.skip(1) =~= rest);
        assert forall|i: int| 0 <= i < fewer.len() implies !stands_at(rest, from, i) by {
            if stands_at(rest, from, i) {
                assert(whole.subrange(i + 1, i + 1 + from.len()) =~= rest.subrange(
                    i,
                    i + from.len(),
                ));
                assert(stands_at(whole, from, i + 1));
            }
        }
        first_part_is_replaced(fewer, from, after, to);
        assert(Seq::<char>::empty().push(whole[0]) + (fewer + to + replaced(after, from, to))
            =~= before + to + replaced(after, from, to));
    }
}

/// Splitting takes nothing away but the character that it splits at: the parts with that
/// character between them are the text, and no part has it.
pub proof fn parts_make_the_text(s: Seq<char>, at: char)
    ensures
        parts(s, at).len() > 0,
        joined(parts(s, at), seq![at]) == s,
        forall|i: int| 0 <= i < parts(s, at).len() ==> !(#[trigger] parts(s, at)[i]).contains(at),
    decreases s.len(),
{
    let all = parts(s, at);
    if s.len() == 0 {
        assert(joined(all, seq![at]) =~= s);
    } else {
        let before = parts(s.drop_last(), at);
        parts_make_the_text(s.drop_last(), at);
        assert(s =~= s.drop_last().push(s.last()));
        if s.last() == at {
            assert(all.drop_last() =~= before);
            assert(joined(all, seq![at]) =~= s);
            assert forall|i: int| 0 <= i < all.len() implies !(#[trigger] all[i]).contains(at) by {
                if i < before.len() {
                    assert(all[i] == before[i]);
                }
            }
        } else {
            assert(all.drop_last() =~= before.drop_last());
            assert(all.last() == before.last().push(s.last()));
            if before.len() == 1 {
                assert(before[0] == before.last());
                assert(joined(all, seq![at]) =~= s);
            } else {
                assert(joined(all, seq![at]) =~= joined(before, seq![at]).push(s.last()));
            }
            assert forall|i: int| 0 <= i < all.len() implies !(#[trigger] all[i]).contains(at) by {
                if i < before.len() - 1 {
                    assert(all[i] == before[i]);
                } else {
                    assert(!before[before.len() - 1].contains(at));
                    let last = before.last();
                    if all[i].contains(at) {
                        let k = choose|k: int| 0 <= k < all[i].len() && all[i][k] == at;
                        assert(last[k] == at);
                    }
                }
            }
        }
    }
}

/// A number that is written in decimal is read back.
pub proof fn written_number_is_read_back(n: nat)
    requires
        n <= u64::MAX,
    ensures
        number_of(decimal(n)) == Some(n as u64),
        n >= 10 ==> decimal(n)[0] != '0',
{
    decimal_is_digits(n);
    assert(is_digit(decimal(n)[0]));
    assert(decimal(n)[0] != '+');
}

proof fn decimal_is_digits(n: nat)
    ensures
        decimal(n).len() > 0,
        forall|i: int| 0 <= i < decimal(n).len() ==> is_digit(#[trigger] decimal(n)[i]),
        digits_value(decimal(n)) == n,
        n > 0 ==> decimal(n)[0] != '0',
    decreases n,
{
    let s = decimal(n);
    if n < 10 {
        assert(s.drop_last() =~= Seq::<char>::empty());
        assert(digits_value(s.drop_last()) == 0);
    } else {
        decimal_is_digits(n / 10);
        let front = decimal(n / 10);
        assert(s.drop_last() =~= front);
        assert forall|i: int| 0 <= i < s.len() implies is_digit(#[trigger] s[i]) by {
            if i < front.len() {
                assert(s[i] == front[i]);
            }
        }
    }
}

/// Of the texts that a text begins with, a shortened one is the longest that fits.
pub proof fn shortened_is_the_longest_that_fits(s: Seq<char>, max: nat, n: int)
    requires
        0 <= n <= s.len(),
        byte_len(s.take(n)) <= max,
    ensures
        n <= shortened(s, max).len(),
    decreases s.len(),
{
    if byte_len(s) > max && s.len() > 0 {
        if n == s.len() {
            assert(s.take(n) =~= s);
        } else {
            assert(s.drop_last().take(n) =~= s.take(n));
            shortened_is_the_longest_that_fits(s.drop_last(), max, n);
        }
    }
}

/// Bytes that are the UTF-8 of a text stand for that text.
pub proof fn encoded_text_is_readable(s: Seq<char>)
    ensures
        readable(utf8::encode_utf8(s)) == s,
{
    broadcast use {utf8::encode_utf8_valid_utf8, utf8::encode_utf8_decode_utf8};

}

/// In ASCII, white space is the blank and the characters from the tab to the carriage
/// return; beyond it are the spaces and breaks of Unicode.
pub proof fn white_space_is_what_it_is(c: char)
    ensures
        (c as int) < 0x80 ==> (is_space(c) <==> c == ' ' || '\t' <= c <= '\r'),
        c as int >= 0x80 ==> (is_space(c) <==> {
            ||| c == '\u{85}' || c == '\u{a0}' || c == '\u{1680}'
            ||| '\u{2000}' <= c <= '\u{200a}'
            ||| c == '\u{2028}' || c == '\u{2029}' || c == '\u{202f}' || c == '\u{205f}'
            ||| c == '\u{3000}'
        }),
{
}

/// A text is read as a number digit by digit: each one counts ten times the ones before it
/// and itself, as long as the number fits. Nothing is read where anything else stands in it,
/// but for a plus sign at its head.
pub proof fn numbers_are_read_digit_by_digit(s: Seq<char>, c: char, i: int)
    ensures
        s.len() == 0 ==> number_of(s) is None,
        number_of(s) is Some && '0' <= c <= '9' && number_of(s)->0 * 10 + (c as int - '0' as int)
            <= u64::MAX ==> number_of(s.push(c)) == Some(
            (number_of(s)->0 * 10 + (c as int - '0' as int)) as u64,
        ),
        number_of(s) is Some && '0' <= c <= '9' && number_of(s)->0 * 10 + (c as int - '0' as int)
            > u64::MAX ==> number_of(s.push(c)) is None,
        '0' <= c <= '9' ==> number_of(seq![c]) == Some((c as int - '0' as int) as u64),
        0 <= i < s.len() && !('0' <= s[i] <= '9') && (i > 0 || s[0] != '+') ==> number_of(s)
            is None,
        s.len() > 0 && s[0] != '+' ==> number_of(seq!['+'] + s) == number_of(s),
{
    let digits = unsigned_digits(s);
    if number_of(s) is Some && '0' <= c <= '9' {
        let more = unsigned_digits(s.push(c));
        assert(more =~= digits.push(c));
        assert(more.drop_last() =~= digits);
        assert forall|j: int| 0 <= j < more.len() implies is_digit(#[trigger] more[j]) by {
            if j < digits.len() {
                assert(more[j] == digits[j]);
            }
        }
    }
    if '0' <= c <= '9' {
        reveal_with_fuel(digits_value, 2);
        assert(seq![c].drop_last().len() == 0);
        assert(unsigned_digits(seq![c]) == seq![c]);
    }
    if 0 <= i < s.len() && !('0' <= s[i] <= '9') && (i > 0 || s[0] != '+') {
        if s[0] == '+' {
            assert(!is_digit(digits[i - 1]));
        } else {
            assert(!is_digit(digits[i]));
        }
    }
    if s.len() > 0 && s[0] != '+' {
        assert((seq!['+'] + s).skip(1) =~= s);
    }
}

} // verus!

//! Text measured in terminal cells: fitting, trimming and joining.

use vstd::prelude::*;
use vstd::string::*;

verus! {

/// What `unicode_width::UnicodeWidthChar::width` says a character takes, with
/// a control character, for which it says nothing, taken as 0.
pub uninterp spec fn unicode_cells(c: char) -> nat;

/// What `ratatui::text::Span::width` says a run of text takes.
pub uninterp spec fn span_cells(s: Seq<char>) -> nat;

/// What `str::to_uppercase` makes of a text.
pub uninterp spec fn upper_case(s: Seq<char>) -> Seq<char>;

/// What `str::to_lowercase` makes of a text.
pub uninterp spec fn lower_case(s: Seq<char>) -> Seq<char>;

/// Characters that take one cell: printable ASCII, box drawing, blocks and
/// shapes, braille, and the marks the rows wear.
pub open spec fn one_cell(c: char) -> bool {
    ||| ' ' <= c <= '~'
    ||| '\u{2500}' <= c <= '\u{25fc}'
    ||| '\u{2800}' <= c <= '\u{28ff}'
    ||| c == '…'
    ||| c == '·'
    ||| c == '✓'
    ||| c == '★'
    ||| c == '⧉'
}

/// The unified ideographs, which take two cells each.
pub open spec fn two_cells(c: char) -> bool {
    '\u{4e00}' <= c <= '\u{9fff}'
}

/// A text of [`one_cell`] and [`two_cells`] characters alone.
pub open spec fn plain(s: Seq<char>) -> bool {
    forall|i: int| 0 <= i < s.len() ==> one_cell(#[trigger] s[i]) || two_cells(s[i])
}

/// Cells a character takes.
#[verifier::opaque]
pub open spec fn char_cells(c: char) -> nat {
    if one_cell(c) {
        1
    } else if two_cells(c) {
        2
    } else {
        unicode_cells(c)
    }
}

/// Cells a painted run of text takes.
#[verifier::opaque]
pub open spec fn text_cells(s: Seq<char>) -> nat {
    if plain(s) {
        cells(s)
    } else {
        span_cells(s)
    }
}

/// White space, as Unicode's property of that name has it.
pub open spec fn white_space(c: char) -> bool {
    ||| '\u{9}' <= c <= '\u{d}'
    ||| c == ' '
    ||| c == '\u{85}'
    ||| c == '\u{a0}'
    ||| c == '\u{1680}'
    ||| '\u{2000}' <= c <= '\u{200a}'
    ||| c == '\u{2028}'
    ||| c == '\u{2029}'
    ||| c == '\u{202f}'
    ||| c == '\u{205f}'
    ||| c == '\u{3000}'
}

/// Calls `unicode_width::UnicodeWidthChar::width`, reading `None` as 0.
///
/// Claimed: the answer depends on the character alone and is at most 3; it is 1
/// for the characters of [`one_cell`] and 2 for those of [`two_cells`].
#[verifier::external_body]
fn unicode_width(c: char) -> (w: usize)
    ensures
        w == unicode_cells(c),
        w <= 3,
        one_cell(c) ==> w == 1,
        two_cells(c) ==> w == 2,
{
    unicode_width::UnicodeWidthChar::width(c).unwrap_or(0)
}

/// Calls `ratatui::text::Span::width` on an unstyled span of `s`.
///
/// Claimed: the answer depends on the text alone, and a text of characters of
/// [`one_cell`] and [`two_cells`] takes what they take one by one.
#[verifier::external_body]
fn span_width(s: &str) -> (w: usize)
    ensures
        w == span_cells(s@),
        plain(s@) ==> w == cells(s@),
{
    ratatui::text::Span::raw(s).width()
}

/// Cells a character takes.
pub(crate) fn char_width(c: char) -> (w: usize)
    ensures
        w == char_cells(c),
        w <= 3,
        one_cell(c) ==> w == 1,
{
    proof {
        reveal(char_cells);
    }
    unicode_width(c)
}

/// Cells a painted run of text takes.
pub(crate) fn text_width(s: &str) -> (w: usize)
    ensures
        w == text_cells(s@),
{
    proof {
        reveal(text_cells);
    }
    span_width(s)
}

/// Calls `char::is_whitespace`. Claimed: it answers by Unicode's `White_Space`
/// property.
#[verifier::external_body]
pub(crate) fn is_white(c: char) -> (b: bool)
    ensures
        b == white_space(c),
{
    c.is_whitespace()
}

/// Calls `str::to_uppercase`. Claimed: the result depends on the text alone.
#[verifier::external_body]
pub(crate) fn to_upper(s: &str) -> (r: String)
    ensures
        r@ == upper_case(s@),
{
    s.to_uppercase()
}

/// Calls `str::to_lowercase`. Claimed: the result depends on the text alone.
#[verifier::external_body]
pub(crate) fn to_lower(s: &str) -> (r: String)
    ensures
        r@ == lower_case(s@),
{
    s.to_lowercase()
}

/// Calls `String::push`. Claimed: it appends the one character.
#[verifier::external_body]
pub(crate) fn push_char(s: &mut String, c: char)
    ensures
        final(s)@ == old(s)@.push(c),
{
    s.push(c);
}

/// Cells a text takes, a character at a time.
pub open spec fn cells(s: Seq<char>) -> nat
    decreases s.len(),
{
    if s.len() == 0 {
        0
    } else {
        cells(s.drop_last()) + char_cells(s.last())
    }
}

/// [`cells`], held to what a machine word can say.
pub open spec fn width_of(s: Seq<char>) -> usize {
    if cells(s) <= usize::MAX {
        cells(s) as usize
    } else {
        usize::MAX
    }
}

/// The low sixteen bits of a count.
pub open spec fn low16(n: int) -> u16 {
    (n % 0x1_0000) as u16
}

/// A run of `n` spaces.
pub open spec fn spaces(n: nat) -> Seq<char> {
    Seq::new(n, |_i: int| ' ')
}

/// `n` copies of `c`.
pub open spec fn copies(c: char, n: nat) -> Seq<char> {
    Seq::new(n, |_i: int| c)
}

/// How many leading characters of `s` fit in `room` cells.
pub open spec fn prefix_in(s: Seq<char>, room: nat) -> nat
    decreases s.len(),
{
    if cells(s) <= room {
        s.len()
    } else if s.len() == 0 {
        0
    } else {
        prefix_in(s.drop_last(), room)
    }
}

/// `s` in exactly `w` cells: padded with spaces when it is short, cut and
/// closed with an ellipsis when it is long.
pub open spec fn fitted(s: Seq<char>, w: nat) -> Seq<char> {
    if w == 0 {
        Seq::empty()
    } else if cells(s) <= w {
        s + spaces((w - cells(s)) as nat)
    } else {
        let kept = s.take(prefix_in(s, (w - 1) as nat) as int);
        kept.push('…') + spaces((w - 1 - cells(kept)) as nat)
    }
}

/// `s` without its trailing white space.
pub open spec fn trimmed(s: Seq<char>) -> Seq<char>
    decreases s.len(),
{
    if s.len() > 0 && white_space(s.last()) {
        trimmed(s.drop_last())
    } else {
        s
    }
}

/// The first index of `s` at or after display column `col`.
pub open spec fn index_at(s: Seq<char>, col: nat) -> nat
    decreases s.len(),
{
    if s.len() == 0 {
        0
    } else if cells(s.drop_last()) >= col {
        index_at(s.drop_last(), col)
    } else {
        s.len()
    }
}

/// The decimal digit `d`.
pub open spec fn digit(d: nat) -> char {
    ((48 + d) as u8) as char
}

/// `n` in decimal.
pub open spec fn decimal(n: nat) -> Seq<char>
    decreases n,
{
    if n < 10 {
        seq![digit(n)]
    } else {
        decimal(n / 10).push(digit(n % 10))
    }
}

/// A count under a hundred, in two digits.
pub open spec fn two_digits(n: nat) -> Seq<char> {
    seq![digit(n / 10), digit(n % 10)]
}

/// `s` flush right in `w` cells, never cut.
pub open spec fn padded_left(s: Seq<char>, w: nat) -> Seq<char> {
    if s.len() >= w {
        s
    } else {
        spaces((w - s.len()) as nat) + s
    }
}

pub proof fn lemma_cells_push(s: Seq<char>, c: char)
    ensures
        cells(s.push(c)) == cells(s) + char_cells(c),
{
    assert(s.push(c).drop_last() =~= s);
}

pub proof fn lemma_cells_concat(a: Seq<char>, b: Seq<char>)
    ensures
        cells(a + b) == cells(a) + cells(b),
    decreases b.len(),
{
    if b.len() == 0 {
        assert(a + b =~= a);
    } else {
        assert((a + b).drop_last() =~= a + b.drop_last());
        lemma_cells_concat(a, b.drop_last());
    }
}

/// The width of two texts joined is the sum of theirs, and nothing takes no
/// cells.
pub proof fn widths_add_up(a: Seq<char>, b: Seq<char>)
    ensures
        cells(a + b) == cells(a) + cells(b),
        cells(a) + cells(b) <= usize::MAX ==> width_of(a + b) == width_of(a) + width_of(b),
        width_of(Seq::empty()) == 0,
{
    lemma_cells_concat(a, b);
}

/// A text of one-cell characters takes as many cells as it has characters, by
/// either measure.
pub proof fn a_narrow_text_takes_its_length(s: Seq<char>)
    requires
        forall|i: int| 0 <= i < s.len() ==> one_cell(#[trigger] s[i]),
    ensures
        cells(s) == s.len(),
        text_cells(s) == s.len(),
    decreases s.len(),
{
    reveal(char_cells);
    reveal(text_cells);
    if s.len() > 0 {
        a_narrow_text_takes_its_length(s.drop_last());
    }
}

/// A text of ideographs takes twice as many cells as it has characters, by
/// either measure.
pub proof fn a_wide_text_takes_twice_its_length(s: Seq<char>)
    requires
        forall|i: int| 0 <= i < s.len() ==> two_cells(#[trigger] s[i]),
    ensures
        cells(s) == 2 * s.len(),
        text_cells(s) == 2 * s.len(),
    decreases s.len(),
{
    reveal(char_cells);
    reveal(text_cells);
    if s.len() > 0 {
        a_wide_text_takes_twice_its_length(s.drop_last());
    }
}

/// A shorter prefix takes no more cells than a longer one.
pub proof fn lemma_cells_take_mono(s: Seq<char>, i: int, j: int)
    requires
        0 <= i <= j <= s.len(),
    ensures
        cells(s.take(i)) <= cells(s.take(j)),
{
    assert(s.take(j) =~= s.take(i) + s.subrange(i, j));
    lemma_cells_concat(s.take(i), s.subrange(i, j));
}

pub proof fn lemma_cells_spaces(n: nat)
    requires
        char_cells(' ') == 1,
    ensures
        cells(spaces(n)) == n,
    decreases n,
{
    if n > 0 {
        assert(spaces(n).drop_last() =~= spaces((n - 1) as nat));
        lemma_cells_spaces((n - 1) as nat);
    }
}

/// `prefix_in` is the longest prefix that fits.
pub proof fn lemma_prefix_in(s: Seq<char>, room: nat)
    ensures
        prefix_in(s, room) <= s.len(),
        cells(s.take(prefix_in(s, room) as int)) <= room,
        forall|j: int|
            prefix_in(s, room) < j <= s.len() ==> cells(#[trigger] s.take(j)) > room,
    decreases s.len(),
{
    if cells(s) <= room {
        assert(s.take(s.len() as int) =~= s);
    } else if s.len() == 0 {
    } else {
        let t = s.drop_last();
        lemma_prefix_in(t, room);
        assert(s.take(prefix_in(s, room) as int) =~= t.take(prefix_in(t, room) as int));
        assert forall|j: int| prefix_in(s, room) < j <= s.len() implies cells(
            #[trigger] s.take(j),
        ) > room by {
            if j == s.len() {
                assert(s.take(j) =~= s);
            } else {
                assert(s.take(j) =~= t.take(j));
            }
        }
    }
}

proof fn lemma_prefix_is(s: Seq<char>, room: nat, i: int)
    requires
        0 <= i < s.len(),
        cells(s.take(i)) <= room,
        cells(s.take(i + 1)) > room,
    ensures
        prefix_in(s, room) == i,
{
    lemma_prefix_in(s, room);
    let p = prefix_in(s, room) as int;
    if p > i {
        lemma_cells_take_mono(s, i + 1, p);
    }
    if p < i {
        assert(cells(s.take(i)) > room);
    }
}

/// A fitted text takes exactly the cells it was asked for.
pub proof fn lemma_fitted_cells(s: Seq<char>, w: nat)
    requires
        char_cells(' ') == 1,
        char_cells('…') == 1,
    ensures
        cells(fitted(s, w)) == w,
{
    if w == 0 {
    } else if cells(s) <= w {
        let pad = (w - cells(s)) as nat;
        lemma_cells_spaces(pad);
        lemma_cells_concat(s, spaces(pad));
    } else {
        lemma_prefix_in(s, (w - 1) as nat);
        let kept = s.take(prefix_in(s, (w - 1) as nat) as int);
        let pad = (w - 1 - cells(kept)) as nat;
        lemma_cells_push(kept, '…');
        lemma_cells_spaces(pad);
        lemma_cells_concat(kept.push('…'), spaces(pad));
    }
}

/// Trimming a text takes no cells away from what is left.
pub proof fn lemma_trimmed_cells(s: Seq<char>)
    ensures
        cells(trimmed(s)) <= cells(s),
    decreases s.len(),
{
    if s.len() > 0 && white_space(s.last()) {
        lemma_trimmed_cells(s.drop_last());
    }
}

/// The characters of a text.
pub fn chars_of(s: &str) -> (v: Vec<char>)
    ensures
        v@ == s@,
{
    let mut v: Vec<char> = Vec::new();
    for c in it: s.chars()
        invariant
            v@ == it.seq().take(it.index() as int),
            it.seq() == s@,
    {
        v.push(c);
    }
    v
}

/// The text of `v[from..to]`.
pub fn text_of(v: &Vec<char>, from: usize, to: usize) -> (r: String)
    requires
        from <= to <= v@.len(),
    ensures
        r@ == v@.subrange(from as int, to as int),
{
    let mut r = String::new();
    let mut i: usize = from;
    while i < to
        invariant
            from <= i <= to <= v@.len(),
            r@ == v@.subrange(from as int, i as int),
        decreases to - i,
    {
        push_char(&mut r, v[i]);
        i = i + 1;
        assert(r@ =~= v@.subrange(from as int, i as int));
    }
    r
}

/// Append `n` copies of `c`.
pub fn push_copies(s: &mut String, c: char, n: usize)
    ensures
        final(s)@ == old(s)@ + copies(c, n as nat),
{
    let ghost start = s@;
    let mut i: usize = 0;
    assert(s@ =~= start + copies(c, 0));
    while i < n
        invariant
            i <= n,
            s@ == start + copies(c, i as nat),
        decreases n - i,
    {
        push_char(s, c);
        i = i + 1;
        assert(s@ =~= start + copies(c, i as nat));
    }
}

/// `n` copies of `c`.
pub fn repeated(c: char, n: usize) -> (r: String)
    ensures
        r@ == copies(c, n as nat),
{
    let mut r = String::new();
    push_copies(&mut r, c, n);
    assert(r@ =~= copies(c, n as nat));
    r
}

/// `n` blanks, which take `n` cells.
pub fn blanks(n: usize) -> (r: String)
    ensures
        r@ == copies(' ', n as nat),
        cells(r@) == n,
{
    let sp: usize = char_width(' ');
    proof {
        lemma_cells_spaces(n as nat);
        assert(copies(' ', n as nat) =~= spaces(n as nat));
    }
    repeated(' ', n)
}

/// `a` with `b` after it.
pub fn joined(a: &str, b: &str) -> (r: String)
    ensures
        r@ == a@ + b@,
{
    let mut r = a.to_owned();
    r.append(b);
    r
}

/// The cells of a character vector, without a machine bound.
fn cells_sum(v: &Vec<char>) -> (n: u128)
    ensures
        n == cells(v@),
{
    let mut n: u128 = 0;
    let mut i: usize = 0;
    let len: usize = v.len();
    while i < len
        invariant
            i <= len,
            len == v@.len(),
            n == cells(v@.take(i as int)),
            n <= 3 * i,
        decreases v@.len() - i,
    {
        let w: usize = char_width(v[i]);
        assert(v@.take(i + 1) =~= v@.take(i as int).push(v@[i as int]));
        proof {
            lemma_cells_push(v@.take(i as int), v@[i as int]);
        }
        n = n + w as u128;
        i = i + 1;
    }
    assert(v@.take(v@.len() as int) =~= v@);
    n
}

/// Display width of `s` in terminal cells.
///
/// The measure [`fit`] cuts by, so checking whether a run fits and laying it
/// out give one answer.
pub fn width(s: &str) -> (w: usize)
    ensures
        w == width_of(s@),
{
    let v = chars_of(s);
    let n = cells_sum(&v);
    if n <= usize::MAX as u128 {
        n as usize
    } else {
        usize::MAX
    }
}

/// Cut with an ellipsis or pad with spaces to exactly `w` display columns.
///
/// Measured in cells, so wide characters stay aligned; a cut that lands in the
/// middle of one pads with a space.
pub fn fit(s: &str, w: usize) -> (r: String)
    ensures
        r@ == fitted(s@, w as nat),
        cells(r@) == w,
{
    let sp: usize = char_width(' ');
    let dots: usize = char_width('…');
    proof {
        lemma_fitted_cells(s@, w as nat);
    }
    if w == 0 {
        return String::new();
    }
    let v = chars_of(s);
    let total = cells_sum(&v);
    if total <= w as u128 {
        let mut out = s.to_owned();
        push_copies(&mut out, ' ', w - total as usize);
        assert(copies(' ', (w - total) as nat) =~= spaces((w - total) as nat));
        return out;
    }
    let target: usize = w - 1;
    let mut out = String::new();
    let mut used: usize = 0;
    let mut i: usize = 0;
    let mut open: bool = true;
    while open && i < v.len()
        invariant
            v@ == s@,
            w >= 1,
            target == w - 1,
            i <= v@.len(),
            out@ == v@.take(i as int),
            used == cells(out@),
            used <= target,
            cells(s@) > w,
            !open ==> i < v@.len() && cells(v@.take(i + 1)) > target,
        decreases v@.len() - i, (if open { 1int } else { 0 }),
    {
        let cw: usize = char_width(v[i]);
        proof {
            assert(v@.take(i + 1) =~= v@.take(i as int).push(v@[i as int]));
            lemma_cells_push(v@.take(i as int), v@[i as int]);
        }
        if used as u128 + cw as u128 > target as u128 {
            open = false;
        } else {
            push_char(&mut out, v[i]);
            used = used + cw;
            i = i + 1;
        }
    }
    proof {
        if open {
            assert(v@.take(v@.len() as int) =~= v@);
        }
        lemma_prefix_is(s@, target as nat, i as int);
    }
    push_char(&mut out, '…');
    let rest: usize = w - 1 - used;
    push_copies(&mut out, ' ', rest);
    assert(copies(' ', rest as nat) =~= spaces(rest as nat));
    out
}

/// `s` without its trailing white space.
pub fn trim_end(s: &str) -> (r: String)
    ensures
        r@ == trimmed(s@),
{
    let v = chars_of(s);
    let mut n: usize = v.len();
    assert(v@.take(n as int) =~= v@);
    let mut open: bool = true;
    while open && n > 0
        invariant
            n <= v@.len(),
            trimmed(v@.take(n as int)) == trimmed(v@),
            !open ==> n > 0 && !white_space(v@[n - 1]),
        decreases n, (if open { 1int } else { 0 }),
    {
        if is_white(v[n - 1]) {
            assert(v@.take(n as int).drop_last() =~= v@.take(n - 1));
            n = n - 1;
        } else {
            open = false;
        }
    }
    assert(trimmed(v@.take(n as int)) == v@.take(n as int));
    assert(v@.subrange(0, n as int) =~= v@.take(n as int));
    text_of(&v, 0, n)
}

/// `s` cut and padded to `w` cells, and the padding taken off again.
pub fn clipped(s: &str, w: usize) -> (r: String)
    ensures
        r@ == trimmed(fitted(s@, w as nat)),
        cells(r@) <= w,
{
    let cell = fit(s, w);
    proof {
        lemma_trimmed_cells(cell@);
    }
    trim_end(cell.as_str())
}

/// The first character index of `v` at or after display column `col`.
pub fn char_at(v: &Vec<char>, col: usize) -> (i: usize)
    ensures
        i == index_at(v@, col as nat),
        i <= v@.len(),
{
    let mut used: u128 = 0;
    let mut i: usize = 0;
    proof {
        lemma_index_at(v@, col as nat);
    }
    let len: usize = v.len();
    while i < len
        invariant
            i <= len,
            len == v@.len(),
            used == cells(v@.take(i as int)),
            used <= 3 * i,
            forall|j: int| 0 <= j < i ==> cells(#[trigger] v@.take(j)) < col,
            index_at(v@, col as nat) <= v@.len(),
            index_at(v@, col as nat) < v@.len() ==> cells(
                v@.take(index_at(v@, col as nat) as int),
            ) >= col,
            forall|j: int|
                0 <= j < index_at(v@, col as nat) ==> cells(#[trigger] v@.take(j)) < col,
        decreases v@.len() - i,
    {
        if used >= col as u128 {
            assert(!(i < index_at(v@, col as nat)));
            assert(!(index_at(v@, col as nat) < i));
            return i;
        }
        let w: usize = char_width(v[i]);
        proof {
            assert(v@.take(i + 1) =~= v@.take(i as int).push(v@[i as int]));
            lemma_cells_push(v@.take(i as int), v@[i as int]);
        }
        used = used + w as u128;
        i = i + 1;
    }
    assert(!(index_at(v@, col as nat) < v@.len()));
    i
}

/// `index_at` is the least index whose prefix reaches the column, or the end.
pub proof fn lemma_index_at(s: Seq<char>, col: nat)
    ensures
        index_at(s, col) <= s.len(),
        index_at(s, col) < s.len() ==> cells(s.take(index_at(s, col) as int)) >= col,
        forall|j: int| 0 <= j < index_at(s, col) ==> cells(#[trigger] s.take(j)) < col,
    decreases s.len(),
{
    if s.len() == 0 {
    } else {
        let t = s.drop_last();
        lemma_index_at(t, col);
        let k = index_at(s, col);
        if cells(t) >= col {
            assert(k <= t.len());
            if k < t.len() {
                assert(s.take(k as int) =~= t.take(k as int));
            } else {
                assert(s.take(k as int) =~= t);
            }
            assert forall|j: int| 0 <= j < k implies cells(#[trigger] s.take(j)) < col by {
                assert(s.take(j) =~= t.take(j));
            }
        } else {
            assert forall|j: int| 0 <= j < k implies cells(#[trigger] s.take(j)) < col by {
                assert(s.take(j) =~= t.take(j));
                lemma_cells_take_mono(t, j, t.len() as int);
                assert(t.take(t.len() as int) =~= t);
            }
        }
    }
}

/// The decimal digit `d`.
fn digit_char(d: u8) -> (c: char)
    requires
        d < 10,
    ensures
        c == digit(d as nat),
{
    (48 + d) as char
}

/// `n` in decimal.
pub fn dec(n: u64) -> (r: String)
    ensures
        r@ == decimal(n as nat),
    decreases n,
{
    if n < 10 {
        let mut r = String::new();
        push_char(&mut r, digit_char(n as u8));
        assert(r@ =~= seq![digit(n as nat)]);
        r
    } else {
        let mut r = dec(n / 10);
        push_char(&mut r, digit_char((n % 10) as u8));
        r
    }
}

/// A count under a hundred, in two digits.
pub fn pad_zero(n: u8) -> (r: String)
    requires
        n < 100,
    ensures
        r@ == two_digits(n as nat),
{
    let mut r = String::new();
    push_char(&mut r, digit_char(n / 10));
    push_char(&mut r, digit_char(n % 10));
    assert(r@ =~= two_digits(n as nat));
    r
}

/// `s` flush right in `w` cells of single-cell text, never cut.
pub fn pad_left(s: &str, w: usize) -> (r: String)
    ensures
        r@ == padded_left(s@, w as nat),
{
    let n: usize = s.unicode_len();
    if n >= w {
        return s.to_owned();
    }
    let mut r = repeated(' ', w - n);
    assert(r@ =~= spaces((w - n) as nat));
    r.append(s);
    r
}

/// The low sixteen bits of a count.
pub fn low_half(n: usize) -> (r: u16)
    ensures
        r == low16(n as int),
{
    assert(n as u16 == n % 0x1_0000) by (bit_vector);
    #[verifier::truncate]
    (n as u16)
}

/// `s` flush left in `w` characters, never cut.
pub open spec fn padded_right(s: Seq<char>, w: nat) -> Seq<char> {
    if s.len() >= w {
        s
    } else {
        s + copies(' ', (w - s.len()) as nat)
    }
}

/// `s` flush left in `w` characters, never cut.
pub fn pad_right(s: &str, w: usize) -> (r: String)
    ensures
        r@ == padded_right(s@, w as nat),
{
    let n: usize = s.unicode_len();
    let mut r = s.to_owned();
    if n < w {
        push_copies(&mut r, ' ', w - n);
    }
    r
}

/// The last space of `s` at or before index `k`, past its first character.
pub open spec fn last_space(s: Seq<char>, k: nat) -> nat
    decreases k,
{
    if k == 0 {
        0
    } else if k < s.len() && s[k as int] == ' ' {
        k
    } else {
        last_space(s, (k - 1) as nat)
    }
}

/// How many characters of a paragraph too long for `w` cells its first line
/// takes, and how many characters the break takes: a space where there is one
/// to break at, else none.
pub open spec fn line_break(s: Seq<char>, w: nat) -> (nat, nat) {
    let k = prefix_in(s, w);
    let b = last_space(s, k);
    if b > 0 {
        (b, 1)
    } else if k > 0 {
        (k, 0)
    } else {
        (1, 0)
    }
}

/// The first line break of `s`, or its end.
pub open spec fn paragraph_end(s: Seq<char>, i: nat) -> nat
    decreases s.len() - i,
{
    if i >= s.len() {
        s.len()
    } else if s[i as int] == '\n' {
        i
    } else {
        paragraph_end(s, i + 1)
    }
}

/// The characters of the first line of `s` broken to `w` cells, and the
/// characters that line and its break take.
pub open spec fn wrap_step(s: Seq<char>, w: nat) -> (nat, nat) {
    let e = paragraph_end(s, 0);
    let para = s.take(e as int);
    if cells(para) <= w {
        (
            e,
            if e < s.len() {
                e + 1
            } else {
                e
            },
        )
    } else {
        let (n, gap) = line_break(para, w);
        (n, n + gap)
    }
}

/// `s` broken into lines of `w` cells: at its own line breaks, then at the last
/// space that fits, then anywhere.
pub open spec fn wrapped(s: Seq<char>, w: nat) -> Seq<Seq<char>>
    decreases s.len(),
{
    if s.len() == 0 {
        Seq::empty()
    } else {
        let (n, took) = wrap_step(s, w);
        if 0 < took <= s.len() {
            seq![s.take(n as int)] + wrapped(s.skip(took as int), w)
        } else {
            seq![s]
        }
    }
}

proof fn lemma_last_space(s: Seq<char>, k: nat)
    ensures
        last_space(s, k) <= k,
        last_space(s, k) > 0 ==> last_space(s, k) < s.len() && s[last_space(s, k) as int] == ' ',
    decreases k,
{
    if k > 0 {
        lemma_last_space(s, (k - 1) as nat);
    }
}

proof fn lemma_line_break(s: Seq<char>, w: nat)
    requires
        cells(s) > w,
    ensures
        0 < line_break(s, w).0,
        line_break(s, w).0 + line_break(s, w).1 <= s.len(),
        cells(s.take(line_break(s, w).0 as int)) <= w || line_break(s, w).0 == 1,
{
    let k = prefix_in(s, w);
    lemma_prefix_in(s, w);
    lemma_last_space(s, k);
    let b = last_space(s, k);
    if b > 0 {
        lemma_cells_take_mono(s, b as int, k as int);
    }
}

proof fn lemma_paragraph_end(s: Seq<char>, i: nat)
    requires
        i <= s.len(),
    ensures
        i <= paragraph_end(s, i) <= s.len(),
        paragraph_end(s, i) < s.len() ==> s[paragraph_end(s, i) as int] == '\n',
        forall|j: int| i <= j < paragraph_end(s, i) ==> s[j] != '\n',
    decreases s.len() - i,
{
    if i < s.len() && s[i as int] != '\n' {
        lemma_paragraph_end(s, i + 1);
    }
}

proof fn lemma_wrap_step(s: Seq<char>, w: nat)
    requires
        s.len() > 0,
    ensures
        0 < wrap_step(s, w).1 <= s.len(),
        wrap_step(s, w).0 <= wrap_step(s, w).1,
        cells(s.take(wrap_step(s, w).0 as int)) <= w || wrap_step(s, w).0 == 1,
{
    let e = paragraph_end(s, 0);
    lemma_paragraph_end(s, 0);
    let para = s.take(e as int);
    if cells(para) > w {
        lemma_line_break(para, w);
        let (n, gap) = line_break(para, w);
        assert(s.take(n as int) =~= para.take(n as int));
    }
}

/// Every line of a wrapped text fits the width it was wrapped to, unless it is
/// a single character wider than that.
pub proof fn wrapped_lines_fit(s: Seq<char>, w: nat)
    ensures
        forall|i: int|
            0 <= i < wrapped(s, w).len() ==> cells(#[trigger] wrapped(s, w)[i]) <= w || wrapped(
                s,
                w,
            )[i].len() == 1,
    decreases s.len(),
{
    if s.len() > 0 {
        lemma_wrap_step(s, w);
        let (n, took) = wrap_step(s, w);
        let rest = wrapped(s.skip(took as int), w);
        wrapped_lines_fit(s.skip(took as int), w);
        assert forall|i: int| 0 <= i < wrapped(s, w).len() implies cells(
            #[trigger] wrapped(s, w)[i],
        ) <= w || wrapped(s, w)[i].len() == 1 by {
            if i > 0 {
                assert(wrapped(s, w)[i] == rest[i - 1]);
            }
        }
    }
}

/// Texts as values.
pub open spec fn texts_of(v: Seq<String>) -> Seq<Seq<char>> {
    Seq::new(v.len(), |i: int| v[i]@)
}

/// How many leading characters of `v` fit in `room` cells.
fn prefix_len(v: &Vec<char>, room: usize) -> (k: usize)
    requires
        cells(v@) > room,
    ensures
        k == prefix_in(v@, room as nat),
        k < v@.len(),
{
    let mut used: u128 = 0;
    let mut i: usize = 0;
    let len: usize = v.len();
    let mut open: bool = true;
    while open && i < len
        invariant
            i <= len,
            len == v@.len(),
            used == cells(v@.take(i as int)),
            used <= room,
            cells(v@) > room,
            !open ==> i < len && cells(v@.take(i + 1)) > room,
        decreases len - i, (if open { 1int } else { 0 }),
    {
        let cw: usize = char_width(v[i]);
        proof {
            assert(v@.take(i + 1) =~= v@.take(i as int).push(v@[i as int]));
            lemma_cells_push(v@.take(i as int), v@[i as int]);
        }
        if used + cw as u128 > room as u128 {
            open = false;
        } else {
            used = used + cw as u128;
            i = i + 1;
        }
    }
    proof {
        if open {
            assert(v@.take(v@.len() as int) =~= v@);
        }
        lemma_prefix_is(v@, room as nat, i as int);
    }
    i
}

/// The first line break of `v[at..]`, or its end.
fn paragraph_at(v: &Vec<char>, at: usize) -> (e: usize)
    requires
        at <= v@.len(),
    ensures
        at <= e <= v@.len(),
        e - at == paragraph_end(v@.skip(at as int), 0),
{
    let len: usize = v.len();
    let ghost s = v@.skip(at as int);
    let mut e: usize = at;
    while e < len
        invariant
            at <= e <= len,
            len == v@.len(),
            s == v@.skip(at as int),
            paragraph_end(s, 0) == paragraph_end(s, (e - at) as nat),
        decreases len - e,
    {
        assert(s[e - at] == v@[e as int]);
        if v[e] == '\n' {
            return e;
        }
        e = e + 1;
    }
    e
}

/// The characters of the first line of `v[at..]`, and the characters that line
/// and its break take.
fn first_line(v: &Vec<char>, at: usize, w: usize) -> (r: (usize, usize))
    requires
        at < v@.len(),
    ensures
        (r.0 as nat, r.1 as nat) == wrap_step(v@.skip(at as int), w as nat),
        0 < r.1,
        at + r.1 <= v@.len(),
        r.0 <= r.1,
{
    let ghost s = v@.skip(at as int);
    proof {
        lemma_wrap_step(s, w as nat);
    }
    let e: usize = paragraph_at(v, at);
    let mut para: Vec<char> = Vec::new();
    let mut i: usize = at;
    while i < e
        invariant
            at <= i <= e <= v@.len(),
            para@ == v@.subrange(at as int, i as int),
        decreases e - i,
    {
        para.push(v[i]);
        i = i + 1;
        assert(para@ =~= v@.subrange(at as int, i as int));
    }
    assert(para@ =~= s.take(e - at));
    if cells_sum(&para) <= w as u128 {
        return (e - at, if e < v.len() { e - at + 1 } else { e - at });
    }
    let k: usize = prefix_len(&para, w);
    let mut b: usize = k;
    while b > 0 && para[b] != ' '
        invariant
            b <= k < para@.len(),
            last_space(para@, k as nat) == last_space(para@, b as nat),
        decreases b,
    {
        b = b - 1;
    }
    let n: usize = if b > 0 { b } else if k > 0 { k } else { 1 };
    let gap: usize = if b > 0 { 1 } else { 0 };
    assert(line_break(para@, w as nat) == (n as nat, gap as nat));
    (n, n + gap)
}

/// `text` broken into lines of `w` cells: at its own line breaks, then at the
/// last space that fits, then anywhere.
pub fn wrap(text: &str, w: usize) -> (lines: Vec<String>)
    ensures
        texts_of(lines@) == wrapped(text@, w as nat),
{
    let v = chars_of(text);
    let len: usize = v.len();
    let mut lines: Vec<String> = Vec::new();
    let mut at: usize = 0;
    let ghost all = wrapped(text@, w as nat);
    assert(v@.skip(0) =~= text@);
    assert(texts_of(lines@) + all =~= all);
    while at < len
        invariant
            at <= len,
            len == v@.len(),
            texts_of(lines@) + wrapped(v@.skip(at as int), w as nat) == all,
        decreases len - at,
    {
        let ghost s = v@.skip(at as int);
        let ghost before = texts_of(lines@);
        let (n, took) = first_line(&v, at, w);
        lines.push(text_of(&v, at, at + n));
        proof {
            assert(v@.subrange(at as int, at + n) =~= s.take(n as int));
            assert(s.skip(took as int) =~= v@.skip(at + took));
            assert(texts_of(lines@) =~= before.push(s.take(n as int)));
            assert(texts_of(lines@) + wrapped(v@.skip(at + took), w as nat) =~= before + wrapped(
                s,
                w as nat,
            ));
        }
        at = at + took;
    }
    assert(v@.skip(len as int) =~= Seq::<char>::empty());
    assert(texts_of(lines@) + wrapped(v@.skip(len as int), w as nat) =~= texts_of(lines@));
    lines
}

/// What a text of decimal digits counts.
pub open spec fn number_in(s: Seq<char>) -> nat
    decreases s.len(),
{
    if s.len() == 0 {
        0
    } else {
        10 * number_in(s.drop_last()) + (s.last() as u32 - '0' as u32) as nat
    }
}

/// Whether a text is of decimal digits alone.
pub open spec fn digits_alone(s: Seq<char>) -> bool {
    forall|i: int| 0 <= i < s.len() ==> '0' <= #[trigger] s[i] <= '9'
}

/// A number read back from its digits is the number, and it is written without
/// a nought at its head.
pub proof fn a_number_reads_back(n: nat)
    ensures
        number_in(decimal(n)) == n,
        digits_alone(decimal(n)),
        decimal(n).len() >= 1,
        n > 0 ==> decimal(n)[0] != '0',
    decreases n,
{
    if n >= 10 {
        a_number_reads_back(n / 10);
        assert(decimal(n).drop_last() =~= decimal(n / 10));
        assert(decimal(n)[0] == decimal(n / 10)[0]);
    } else {
        assert(decimal(n).drop_last() =~= Seq::<char>::empty());
        assert(number_in(decimal(n).drop_last()) == 0);
    }
}

/// So two numbers that are written alike are the same number.
pub proof fn numbers_are_told_apart(m: nat, n: nat)
    ensures
        decimal(m) == decimal(n) ==> m == n,
{
    a_number_reads_back(m);
    a_number_reads_back(n);
}

/// A number under a hundred takes two digits, and reads back.
pub proof fn two_digits_read_back(n: nat)
    requires
        n < 100,
    ensures
        two_digits(n).len() == 2,
        digits_alone(two_digits(n)),
        number_in(two_digits(n)) == n,
{
    let s = two_digits(n);
    assert(s.drop_last() =~= seq![digit(n / 10)]);
    assert(s.drop_last().drop_last() =~= Seq::<char>::empty());
    assert(number_in(s.drop_last().drop_last()) == 0);
    assert(number_in(s.drop_last()) == n / 10);
}

/// Padding puts spaces on one side of a text and changes nothing of it: before
/// it to set it flush right, after it to set it flush left.
pub proof fn padding_keeps_the_text(s: Seq<char>, w: nat)
    ensures
        ({
            let l = padded_left(s, w);
            let r = padded_right(s, w);
            let n = l.len() - s.len();
            &&& l.len() == r.len()
            &&& l.len() >= w
            &&& l.len() == s.len() || l.len() == w
            &&& l.skip(n) == s
            &&& r.take(s.len() as int) == s
            &&& forall|i: int| 0 <= i < n ==> #[trigger] l[i] == ' '
            &&& forall|i: int| s.len() <= i < r.len() ==> #[trigger] r[i] == ' '
        }),
{
    let l = padded_left(s, w);
    let r = padded_right(s, w);
    assert(l.skip(l.len() - s.len()) =~= s);
    assert(r.take(s.len() as int) =~= s);
}

/// Trimming takes white space off the end of a text, all of it, and nothing
/// else.
pub proof fn trimming_takes_white_space_alone(s: Seq<char>)
    ensures
        trimmed(s).len() <= s.len(),
        trimmed(s) == s.take(trimmed(s).len() as int),
        forall|i: int| trimmed(s).len() <= i < s.len() ==> white_space(#[trigger] s[i]),
        trimmed(s).len() > 0 ==> !white_space(trimmed(s).last()),
    decreases s.len(),
{
    if s.len() > 0 && white_space(s.last()) {
        let t = s.drop_last();
        trimming_takes_white_space_alone(t);
        assert(t.take(trimmed(s).len() as int) =~= s.take(trimmed(s).len() as int));
        assert forall|i: int| trimmed(s).len() <= i < s.len() implies white_space(
            #[trigger] s[i],
        ) by {
            if i < s.len() - 1 {
                assert(t[i] == s[i]);
            }
        }
    } else {
        assert(s.take(s.len() as int) =~= s);
    }
}

/// How a text is fitted to a number of cells. It takes exactly that many. One
/// that has the room is printed whole with spaces after it; one that has not is
/// cut as late as it can be, an ellipsis in place of what was cut.
pub proof fn fitting_cuts_as_late_as_it_can(s: Seq<char>, w: nat)
    ensures
        cells(fitted(s, w)) == w,
        w > 0 && cells(s) <= w ==> {
            &&& s.len() <= fitted(s, w).len()
            &&& fitted(s, w).take(s.len() as int) == s
            &&& forall|i: int| s.len() <= i < fitted(s, w).len() ==> #[trigger] fitted(s, w)[i] == ' '
        },
        w > 0 && cells(s) > w ==> exists|k: int|
            {
                &&& 0 <= k < s.len()
                &&& k < fitted(s, w).len()
                &&& fitted(s, w).take(k) == #[trigger] s.take(k)
                &&& fitted(s, w)[k] == '…'
                &&& forall|i: int| k < i < fitted(s, w).len() ==> #[trigger] fitted(s, w)[i] == ' '
                &&& cells(s.take(k + 1)) + 1 > w
            },
{
    reveal(char_cells);
    lemma_fitted_cells(s, w);
    let f = fitted(s, w);
    if w > 0 && cells(s) <= w {
        assert(f.take(s.len() as int) =~= s);
    } else if w > 0 {
        let k = prefix_in(s, (w - 1) as nat) as int;
        lemma_prefix_in(s, (w - 1) as nat);
        assert(s.take(s.len() as int) =~= s);
        assert(k < s.len());
        assert(f.take(k) =~= s.take(k));
        assert(f[k] == '…');
    }
}

/// Texts with their breaks put back after them, in order.
pub open spec fn put_together(lines: Seq<Seq<char>>, breaks: Seq<Seq<char>>) -> Seq<char>
    decreases lines.len(),
{
    if lines.len() == 0 {
        Seq::empty()
    } else {
        lines[0] + breaks[0] + put_together(lines.skip(1), breaks.skip(1))
    }
}

/// Whether `b` is what a line ended with: nothing, a space, or a line break.
pub open spec fn is_break(b: Seq<char>) -> bool {
    b == Seq::<char>::empty() || b == seq![' '] || b == seq!['\n']
}

/// Whether these are the lines of `s` with the breaks they ended in.
pub open spec fn breaks_into(s: Seq<char>, lines: Seq<Seq<char>>, breaks: Seq<Seq<char>>) -> bool {
    &&& breaks.len() == lines.len()
    &&& forall|i: int| 0 <= i < breaks.len() ==> is_break(#[trigger] breaks[i])
    &&& put_together(lines, breaks) == s
}

/// Wrapping loses no text: the lines in order, each with the one space or line
/// break it ended in put back, are the text that was wrapped.
#[verifier::rlimit(60)]
pub proof fn wrapping_loses_no_text(s: Seq<char>, w: nat)
    ensures
        exists|breaks: Seq<Seq<char>>| #[trigger] breaks_into(s, wrapped(s, w), breaks),
    decreases s.len(),
{
    let lines = wrapped(s, w);
    if s.len() == 0 {
        assert(s =~= Seq::<char>::empty());
        assert(put_together(lines, Seq::<Seq<char>>::empty()) == s);
        assert(breaks_into(s, lines, Seq::<Seq<char>>::empty()));
    } else {
        lemma_wrap_step(s, w);
        lemma_wrap_gap(s, w);
        let (n, took) = wrap_step(s, w);
        let rest = s.skip(took as int);
        wrapping_loses_no_text(rest, w);
        let after = choose|b: Seq<Seq<char>>| #[trigger] breaks_into(rest, wrapped(rest, w), b);
        let gap = s.subrange(n as int, took as int);
        let breaks = seq![gap] + after;
        assert(lines[0] == s.take(n as int));
        assert(lines.skip(1) =~= wrapped(rest, w));
        assert(breaks.skip(1) =~= after);
        assert(breaks[0] == gap);
        assert(s.take(n as int) + gap + rest =~= s);
        assert forall|i: int| 0 <= i < breaks.len() implies is_break(#[trigger] breaks[i]) by {
            if i > 0 {
                assert(breaks[i] == after[i - 1]);
            }
        }
        assert(breaks_into(s, lines, breaks));
    }
}

/// What a line's break takes: nothing, a space, or a line break.
proof fn lemma_wrap_gap(s: Seq<char>, w: nat)
    requires
        s.len() > 0,
    ensures
        ({
            let (n, took) = wrap_step(s, w);
            &&& n <= took <= s.len()
            &&& is_break(s.subrange(n as int, took as int))
        }),
{
    lemma_wrap_step(s, w);
    lemma_paragraph_end(s, 0);
    let e = paragraph_end(s, 0);
    let para = s.take(e as int);
    let (n, took) = wrap_step(s, w);
    let gap = s.subrange(n as int, took as int);
    if cells(para) <= w {
        if e < s.len() {
            assert(gap =~= seq!['\n']);
        } else {
            assert(gap =~= Seq::<char>::empty());
        }
    } else {
        lemma_line_break(para, w);
        lemma_last_space(para, prefix_in(para, w));
        if line_break(para, w).1 == 1 {
            assert(gap =~= seq![' ']);
        } else {
            assert(gap =~= Seq::<char>::empty());
        }
    }
}

/// A line break of the text ends a line: none is printed inside one.
pub proof fn a_line_holds_no_line_break(s: Seq<char>, w: nat)
    ensures
        forall|i: int, j: int|
            0 <= i < wrapped(s, w).len() && 0 <= j < wrapped(s, w)[i].len() ==> #[trigger] wrapped(
                s,
                w,
            )[i][j] != '\n',
    decreases s.len(),
{
    if s.len() > 0 {
        lemma_wrap_step(s, w);
        lemma_paragraph_end(s, 0);
        let (n, took) = wrap_step(s, w);
        let rest = s.skip(took as int);
        a_line_holds_no_line_break(rest, w);
        let e = paragraph_end(s, 0);
        let para = s.take(e as int);
        if cells(para) > w {
            lemma_line_break(para, w);
        }
        assert(n <= e);
        assert forall|i: int, j: int|
            0 <= i < wrapped(s, w).len() && 0 <= j < wrapped(s, w)[i].len() implies #[trigger] wrapped(
            s,
            w,
        )[i][j] != '\n' by {
            if i > 0 {
                assert(wrapped(s, w)[i] == wrapped(rest, w)[i - 1]);
            } else {
                assert(wrapped(s, w)[0][j] == s[j]);
            }
        }
    }
}

/// A text that fits and holds no line break is one line.
pub proof fn a_text_that_fits_is_one_line(s: Seq<char>, w: nat)
    requires
        s.len() > 0,
        cells(s) <= w,
        forall|i: int| 0 <= i < s.len() ==> #[trigger] s[i] != '\n',
    ensures
        wrapped(s, w) == seq![s],
{
    lemma_paragraph_end(s, 0);
    let e = paragraph_end(s, 0);
    assert(e == s.len());
    assert(s.take(e as int) =~= s);
    assert(s.skip(e as int).len() == 0);
    assert(wrapped(s.skip(e as int), w) == Seq::<Seq<char>>::empty());
    assert(wrapped(s, w) =~= seq![s]);
}

proof fn lemma_last_space_is_last(s: Seq<char>, k: nat)
    ensures
        forall|j: int| last_space(s, k) < j <= k && j < s.len() ==> #[trigger] s[j] != ' ',
    decreases k,
{
    if k > 0 && !(k < s.len() && s[k as int] == ' ') {
        lemma_last_space_is_last(s, (k - 1) as nat);
    }
}

/// A line takes as many words as fit: up to the end of any word after its own,
/// the text is too wide. A word is split only where a line has no space to break
/// at.
#[verifier::rlimit(60)]
pub proof fn a_line_takes_as_many_words_as_fit(s: Seq<char>, w: nat)
    requires
        s.len() > 0,
    ensures
        ({
            let first = wrapped(s, w)[0];
            let n = first.len() as int;
            &&& wrapped(s, w).len() > 0
            &&& n <= s.len()
            &&& first == s.take(n)
            &&& forall|j: int|
                n < j <= s.len() && (j == s.len() || s[j] == ' ' || s[j] == '\n') && (forall|i: int|
                    0 <= i < j ==> s[i] != '\n') ==> cells(#[trigger] s.take(j)) > w
            &&& n < s.len() && s[n] != ' ' && s[n] != '\n' ==> forall|i: int|
                1 <= i < n ==> #[trigger] first[i] != ' '
        }),
{
    lemma_wrap_step(s, w);
    lemma_paragraph_end(s, 0);
    let e = paragraph_end(s, 0) as int;
    let para = s.take(e);
    let n = wrap_step(s, w).0 as int;
    assert(wrapped(s, w)[0] == s.take(n));
    if cells(para) > w {
        let k = prefix_in(para, w);
        lemma_prefix_in(para, w);
        lemma_line_break(para, w);
        lemma_last_space(para, k);
        lemma_last_space_is_last(para, k);
        assert forall|j: int|
            n < j <= s.len() && (j == s.len() || s[j] == ' ' || s[j] == '\n') && (forall|i: int|
                0 <= i < j ==> s[i] != '\n') implies cells(#[trigger] s.take(j)) > w by {
            if j > e {
                assert(s[e] == '\n');
            }
            assert(s.take(j) =~= para.take(j));
            if j <= k {
                if j < e {
                    assert(para[j] == s[j]);
                }
                assert(para.take(e) =~= para);
            }
        }
        assert forall|i: int| n < s.len() && s[n] != ' ' && s[n] != '\n' && 1 <= i < n implies s.take(
            n,
        )[i] != ' ' by {
            assert(s.take(n)[i] == para[i]);
            if last_space(para, k) > 0 {
                assert(para[n] == s[n]);
            }
        }
    }
}

/// What is wrapped after the first line is the rest of the text, past the space
/// or line break that ended it.
pub proof fn the_rest_is_wrapped_alike(s: Seq<char>, w: nat)
    requires
        s.len() > 0,
    ensures
        ({
            let n = wrapped(s, w)[0].len() as int;
            exists|took: int|
                {
                    &&& n <= took <= s.len()
                    &&& is_break(#[trigger] s.subrange(n, took))
                    &&& wrapped(s, w).skip(1) == wrapped(s.skip(took), w)
                }
        }),
{
    lemma_wrap_step(s, w);
    lemma_wrap_gap(s, w);
    let (n, took) = wrap_step(s, w);
    assert(wrapped(s, w)[0] == s.take(n as int));
    assert(wrapped(s, w).skip(1) =~= wrapped(s.skip(took as int), w));
    assert(is_break(s.subrange(n as int, took as int)));
}

/// A space and an ellipsis take a cell each.
pub proof fn lemma_blank_cells()
    ensures
        char_cells(' ') == 1,
        char_cells('…') == 1,
{
    reveal(char_cells);
}

} // verus!

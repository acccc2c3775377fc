use vstd::prelude::*;

use crate::color::Color;
use crate::scalar::Scalar;

verus! {

/// The decimal digit `d` as a character, for `0 <= d <= 9`.
pub open spec fn digit_char(d: int) -> char {
    if d == 0 {
        '0'
    } else if d == 1 {
        '1'
    } else if d == 2 {
        '2'
    } else if d == 3 {
        '3'
    } else if d == 4 {
        '4'
    } else if d == 5 {
        '5'
    } else if d == 6 {
        '6'
    } else if d == 7 {
        '7'
    } else if d == 8 {
        '8'
    } else {
        '9'
    }
}

/// The usual decimal rendering of a nonnegative integer: the digits of
/// `n / 10` followed by the last digit, with a single `'0'` for zero.
pub open spec fn dec_spec(n: int) -> Seq<char>
    decreases n,
{
    if n < 10 {
        seq![digit_char(n)]
    } else {
        dec_spec(n / 10).push(digit_char(n % 10))
    }
}

/// A channel value below 256 renders as one, two or three digits.
proof fn lemma_dec_len_channel(n: int)
    requires
        0 <= n < 256,
    ensures
        1 <= dec_spec(n).len() <= 3,
{
    if n >= 10 {
        assert(dec_spec(n) == dec_spec(n / 10).push(digit_char(n % 10)));
        if n / 10 >= 10 {
            assert(dec_spec(n / 10) == dec_spec(n / 100).push(digit_char(n / 10 % 10)));
            assert(n / 100 < 10);
        }
    }
}

fn digit_str(d: u64) -> (r: &'static str)
    requires
        d < 10,
    ensures
        r@.len() == 1,
        r@[0] == digit_char(d as int),
{
    proof {
        reveal_strlit("0");
        reveal_strlit("1");
        reveal_strlit("2");
        reveal_strlit("3");
        reveal_strlit("4");
        reveal_strlit("5");
        reveal_strlit("6");
        reveal_strlit("7");
        reveal_strlit("8");
        reveal_strlit("9");
    }
    if d == 0 {
        "0"
    } else if d == 1 {
        "1"
    } else if d == 2 {
        "2"
    } else if d == 3 {
        "3"
    } else if d == 4 {
        "4"
    } else if d == 5 {
        "5"
    } else if d == 6 {
        "6"
    } else if d == 7 {
        "7"
    } else if d == 8 {
        "8"
    } else {
        "9"
    }
}

/// Renders a nonnegative integer in decimal.
pub fn dec_string(n: u64) -> (s: String)
    ensures
        s@ == dec_spec(n as int),
    decreases n,
{
    if n < 10 {
        let mut s = String::new();
        s.append(digit_str(n));
        proof {
            assert(s@ =~= dec_spec(n as int));
        }
        s
    } else {
        let mut s = dec_string(n / 10);
        s.append(digit_str(n % 10));
        proof {
            assert(s@ =~= dec_spec(n as int));
        }
        s
    }
}

/// The pending line a buffer without its trailing separator stands for:
/// nothing when the buffer is empty, the buffer plus one trailing space
/// otherwise.
pub open spec fn line_repr(l: Seq<char>) -> Seq<char> {
    if l.len() == 0 {
        l
    } else {
        l + seq![' ']
    }
}

/// A pending line with its trailing separator removed.
pub open spec fn line_trim(l: Seq<char>) -> Seq<char> {
    if l.len() == 0 {
        l
    } else {
        l.drop_last()
    }
}

/// One step of the serializer: append the next value's digits to the
/// pending line, each value followed by one separating space, but when the
/// line could no longer carry the digits and their separator within the
/// 70-column budget, close it first (dropping the trailing separator) and
/// start a fresh line with this value.
pub open spec fn fold_step(state: (Seq<char>, Seq<char>), t: Seq<char>) -> (Seq<char>, Seq<char>) {
    if state.1.len() + t.len() + 1 > 70 {
        (state.0 + line_trim(state.1) + seq!['\n'], t + seq![' '])
    } else {
        (state.0, state.1 + t + seq![' '])
    }
}

/// Folds `fold_step` over a row's values left to right, starting from no
/// finished text and an empty pending line.
pub open spec fn emit_fold(ts: Seq<Seq<char>>) -> (Seq<char>, Seq<char>)
    decreases ts.len(),
{
    if ts.len() == 0 {
        (Seq::<char>::empty(), Seq::<char>::empty())
    } else {
        fold_step(emit_fold(ts.drop_last()), ts.last())
    }
}

/// Folding one more value is one more step.
proof fn lemma_emit_fold_step(ts: Seq<Seq<char>>, k: int)
    requires
        0 <= k < ts.len(),
    ensures
        emit_fold(ts.take(k + 1)) == fold_step(emit_fold(ts.take(k)), ts[k]),
{
    let t1 = ts.take(k + 1);
    assert(t1.drop_last() =~= ts.take(k));
    assert(t1.last() == ts[k]);
}

/// Trimming the representation of a buffer gives back the buffer.
proof fn lemma_line_repr_trim(l: Seq<char>)
    ensures
        line_trim(line_repr(l)) == l,
{
    if l.len() > 0 {
        assert((l + seq![' ']).drop_last() =~= l);
    }
}

/// The `k`th channel of a pixel, as the digits it serializes to: red,
/// green, then blue.
pub open spec fn channel_token<T: Scalar>(c: Color<T>, k: int) -> Seq<char> {
    if k == 0 {
        dec_spec(c.red.channel_s() as int)
    } else if k == 1 {
        dec_spec(c.green.channel_s() as int)
    } else {
        dec_spec(c.blue.channel_s() as int)
    }
}

/// A canvas row as the flat sequence of its serialized channel values,
/// three per pixel in column order.
pub open spec fn row_tokens<T: Scalar>(row: Seq<Color<T>>) -> Seq<Seq<char>> {
    Seq::new((3 * row.len()) as nat, |i: int| channel_token(row[i / 3], i % 3))
}

/// The text a canvas row serializes to: its channel values folded into
/// 70-column lines, with the last pending line closed by a newline. An
/// empty row emits nothing.
pub open spec fn row_text<T: Scalar>(row: Seq<Color<T>>) -> Seq<char> {
    let f = emit_fold(row_tokens(row));
    if f.1.len() == 0 {
        f.0
    } else {
        f.0 + line_trim(f.1) + seq!['\n']
    }
}

/// A rectangular grid of pixels, stored row-major, that serializes to the
/// plain-text PPM image format.
#[derive(Debug, Clone, PartialEq)]
pub struct Canvas<T> {
    pub width: usize,
    pub height: usize,
    pub data: Vec<Color<T>>,
}

impl<T: Scalar> Canvas<T> {
    /// The shape invariant: one pixel per cell of the grid.
    pub open spec fn wf(self) -> bool {
        self.data@.len() == self.width * self.height
    }

    /// The pixel in column `x` of row `y`.
    pub open spec fn pixel(self, x: int, y: int) -> Color<T> {
        self.data@[y * self.width + x]
    }

    /// Row `y` of the grid.
    pub open spec fn row_at(self, y: int) -> Seq<Color<T>> {
        self.data@.subrange(y * self.width, y * self.width + self.width)
    }

    /// The text of the first `n` rows, in order.
    pub open spec fn rows_text(self, n: int) -> Seq<char>
        decreases n,
    {
        if n <= 0 {
            Seq::<char>::empty()
        } else {
            self.rows_text(n - 1) + row_text(self.row_at(n - 1))
        }
    }

    /// The PPM header: the magic number, the dimensions, and the maximum
    /// channel value, one line each.
    pub open spec fn header_s(self) -> Seq<char> {
        seq!['P', '3', '\n'] + dec_spec(self.width as int) + seq![' '] + dec_spec(
            self.height as int,
        ) + seq!['\n', '2', '5', '5', '\n']
    }

    /// The complete PPM text: the header followed by every row's pixel
    /// data, ending in a newline whenever any pixel was emitted.
    pub open spec fn ppm_s(self) -> Seq<char> {
        self.header_s() + self.rows_text(self.height as int)
    }

    /// Allocates a `height` by `width` grid with every pixel black: all
    /// three channels are the additive identity.
    pub fn new(width: usize, height: usize) -> (c: Canvas<T>)
        requires
            width * height <= usize::MAX,
        ensures
            c.wf(),
            c.width == width,
            c.height == height,
            forall|i: int|
                0 <= i < c.data@.len() ==> c.data@[i] == (Color {
                    red: T::zero_s(),
                    green: T::zero_s(),
                    blue: T::zero_s(),
                }),
    {
        let total = width * height;
        let mut data: Vec<Color<T>> = Vec::new();
        let mut i: usize = 0;
        while i < total
            invariant
                i <= total,
                data@.len() == i,
                forall|k: int|
                    0 <= k < i ==> data@[k] == (Color {
                        red: T::zero_s(),
                        green: T::zero_s(),
                        blue: T::zero_s(),
                    }),
            decreases total - i,
        {
            data.push(Color { red: T::zero(), green: T::zero(), blue: T::zero() });
            i = i + 1;
        }
        Canvas { width, height, data }
    }

    /// Stores `color` at column `x`, row `y`. Coordinates outside the grid
    /// leave the canvas unchanged: filtering them is the caller's business.
    pub fn write_pixel(&mut self, x: usize, y: usize, color: Color<T>)
        requires
            old(self).wf(),
        ensures
            final(self).wf(),
            final(self).width == old(self).width,
            final(self).height == old(self).height,
            x < old(self).width && y < old(self).height ==> final(self).data@ == old(
                self,
            ).data@.update(y * old(self).width + x, color),
            x < old(self).width && y < old(self).height ==> final(self).pixel(
                x as int,
                y as int,
            ) == color,
            !(x < old(self).width && y < old(self).height) ==> *final(self) == *old(self),
    {
        if x < self.width && y < self.height {
            // The buffer length is a usize, so the cell index fits one too.
            let _n = self.data.len();
            proof {
                assert(y * self.width + x < self.width * self.height) by (nonlinear_arith)
                    requires
                        y < self.height,
                        x < self.width,
                ;
            }
            self.data[y * self.width + x] = color;
        }
    }

    /// Overwrites every pixel of the canvas with `color`.
    pub fn fill_every_with(&mut self, color: Color<T>)
        requires
            old(self).wf(),
        ensures
            final(self).wf(),
            final(self).width == old(self).width,
            final(self).height == old(self).height,
            final(self).data@.len() == old(self).data@.len(),
            forall|i: int| 0 <= i < final(self).data@.len() ==> final(self).data@[i] == color,
    {
        let n = self.data.len();
        let mut i: usize = 0;
        while i < n
            invariant
                i <= n,
                n == self.data@.len(),
                self.width == old(self).width,
                self.height == old(self).height,
                self.wf() == old(self).wf(),
                self.data@.len() == old(self).data@.len(),
                forall|k: int| 0 <= k < i ==> self.data@[k] == color,
            decreases n - i,
        {
            self.data[i] = color;
            i = i + 1;
        }
    }

    /// Serializes the canvas to PPM "P3" text: the header, then for each
    /// canvas row its channel values as decimal integers separated by
    /// single spaces, wrapped to the 70-column budget; every canvas row
    /// starts a fresh output line and the text ends with a newline.
    #[verifier::rlimit(100)]
    pub fn to_ppm(&self) -> (s: String)
        requires
            self.wf(),
        ensures
            s@ == self.ppm_s(),
    {
        let mut ppm = String::new();
        ppm.append("P3\n");
        let ws = dec_string(self.width as u64);
        ppm.append(ws.as_str());
        ppm.append(" ");
        let hs = dec_string(self.height as u64);
        ppm.append(hs.as_str());
        ppm.append("\n255\n");
        proof {
            reveal_strlit("P3\n");
            reveal_strlit(" ");
            reveal_strlit("\n255\n");
            assert(ppm@ =~= self.header_s());
            assert(ppm@ =~= self.header_s() + self.rows_text(0));
        }
        // The buffer length is a usize, so every cell index fits one too.
        let _n = self.data.len();
        let mut y: usize = 0;
        while y < self.height
            invariant
                y <= self.height,
                self.wf(),
                self.data@.len() <= usize::MAX,
                ppm@ == self.header_s() + self.rows_text(y as int),
            decreases self.height - y,
        {
            let ghost row = self.row_at(y as int);
            let ghost tokens = row_tokens(row);
            let mut line = String::new();
            let mut x: usize = 0;
            proof {
                assert(0 <= y * self.width && y * self.width + self.width <= self.width
                    * self.height) by (nonlinear_arith)
                    requires
                        0 <= y < self.height,
                        0 <= self.width,
                ;
                assert(row.len() == self.width);
                assert(tokens.take(0) =~= Seq::<Seq<char>>::empty());
                assert(ppm@ =~= self.header_s() + self.rows_text(y as int) + emit_fold(
                    tokens.take(0),
                ).0);
            }
            while x < self.width
                invariant
                    x <= self.width,
                    y < self.height,
                    self.wf(),
                    self.data@.len() <= usize::MAX,
                    0 <= y * self.width,
                    y * self.width + self.width <= self.data@.len(),
                    row == self.row_at(y as int),
                    row.len() == self.width,
                    tokens == row_tokens(row),
                    tokens.len() == 3 * self.width,
                    line@.len() <= 70,
                    ppm@ == self.header_s() + self.rows_text(y as int) + emit_fold(
                        tokens.take(3 * (x as int)),
                    ).0,
                    line_repr(line@) == emit_fold(tokens.take(3 * (x as int))).1,
                decreases self.width - x,
            {
                let c: Color<T> = self.data[y * self.width + x];
                proof {
                    assert(row[x as int] == c);
                    assert(tokens[3 * (x as int)] == channel_token(c, 0));
                    assert(tokens[3 * (x as int) + 1] == channel_token(c, 1));
                    assert(tokens[3 * (x as int) + 2] == channel_token(c, 2));
                }
                push_pixel(
                    &mut ppm,
                    &mut line,
                    c,
                    Ghost(tokens),
                    Ghost(3 * (x as int)),
                    Ghost(self.header_s() + self.rows_text(y as int)),
                );
                proof {
                    assert(3 * (x as int) + 3 == 3 * (x as int + 1));
                }
                x = x + 1;
            }
            proof {
                assert(tokens.take(3 * (x as int)) =~= tokens);
            }
            if !line.as_str().is_empty() {
                ppm.append(line.as_str());
                ppm.append("\n");
                proof {
                    reveal_strlit("\n");
                    lemma_line_repr_trim(line@);
                    assert(ppm@ =~= self.header_s() + self.rows_text(y as int) + row_text(row));
                }
            } else {
                proof {
                    assert(emit_fold(tokens).1 =~= Seq::<char>::empty());
                    assert(ppm@ =~= self.header_s() + self.rows_text(y as int) + row_text(row));
                }
            }
            proof {
                assert(self.rows_text(y as int + 1) == self.rows_text(y as int) + row_text(
                    self.row_at(y as int),
                ));
                assert(ppm@ =~= self.header_s() + self.rows_text(y as int + 1));
            }
            y = y + 1;
        }
        ppm
    }
}

/// Whether a piece of text contains no line break.
pub open spec fn no_newline(s: Seq<char>) -> bool {
    forall|k: int| 0 <= k < s.len() ==> s[k] != '\n'
}

/// The line structure of a piece of text: the length of its longest line
/// and the length of the unterminated line after the last newline (0 when
/// the text is empty or ends in a newline).
pub open spec fn line_lens(s: Seq<char>) -> (int, int)
    decreases s.len(),
{
    if s.len() == 0 {
        (0int, 0int)
    } else {
        let p = line_lens(s.drop_last());
        if s.last() == '\n' {
            (p.0, 0int)
        } else {
            (
                if p.1 + 1 > p.0 {
                    p.1 + 1
                } else {
                    p.0
                },
                p.1 + 1,
            )
        }
    }
}

/// The trailing line never outruns the longest one, and both are lengths.
proof fn lemma_line_lens_nonneg(s: Seq<char>)
    ensures
        0 <= line_lens(s).1 <= line_lens(s).0,
    decreases s.len(),
{
    if s.len() > 0 {
        lemma_line_lens_nonneg(s.drop_last());
    }
}

/// Appending text without line breaks extends the trailing line by its
/// length and leaves the earlier lines alone.
proof fn lemma_line_lens_append_no_newline(a: Seq<char>, b: Seq<char>)
    requires
        no_newline(b),
    ensures
        line_lens(a + b).1 == line_lens(a).1 + b.len(),
        line_lens(a + b).0 == (if line_lens(a).1 + b.len() > line_lens(a).0 {
            line_lens(a).1 + b.len()
        } else {
            line_lens(a).0
        }),
    decreases b.len(),
{
    lemma_line_lens_nonneg(a);
    if b.len() == 0 {
        assert(a + b =~= a);
    } else {
        let b0 = b.drop_last();
        assert(no_newline(b0));
        lemma_line_lens_append_no_newline(a, b0);
        assert((a + b).drop_last() =~= a + b0);
        assert((a + b).last() == b.last());
        assert(b.last() != '\n');
    }
}

/// Appending a lone newline closes the trailing line.
proof fn lemma_line_lens_append_newline(a: Seq<char>)
    ensures
        line_lens(a + seq!['\n']) == (line_lens(a).0, 0int),
{
    assert((a + seq!['\n']).drop_last() =~= a);
}

/// Appending after a closed line composes independently: the longest line
/// of the whole is the longer of the two longest lines, and the trailing
/// line is the appended text's own.
proof fn lemma_line_lens_append_block(a: Seq<char>, b: Seq<char>)
    requires
        line_lens(a).1 == 0,
    ensures
        line_lens(a + b).1 == line_lens(b).1,
        line_lens(a + b).0 == (if line_lens(b).0 > line_lens(a).0 {
            line_lens(b).0
        } else {
            line_lens(a).0
        }),
    decreases b.len(),
{
    lemma_line_lens_nonneg(a);
    lemma_line_lens_nonneg(b);
    if b.len() == 0 {
        assert(a + b =~= a);
    } else {
        let b0 = b.drop_last();
        lemma_line_lens_append_block(a, b0);
        lemma_line_lens_nonneg(b0);
        assert((a + b).drop_last() =~= a + b0);
        assert((a + b).last() == b.last());
    }
}

/// Decimal renderings consist of digits alone, never a line break.
proof fn lemma_dec_no_newline(n: int)
    ensures
        no_newline(dec_spec(n)),
    decreases n,
{
    if n >= 10 {
        lemma_dec_no_newline(n / 10);
    }
}

/// The serializer's fold keeps every closed line within the 70-column
/// budget and the pending line within it as well, as long as each value's
/// rendering is short enough to fit a fresh line.
proof fn lemma_emit_fold_budget(ts: Seq<Seq<char>>)
    requires
        forall|i: int| 0 <= i < ts.len() ==> 1 <= (#[trigger] ts[i]).len() <= 69,
        forall|i: int| 0 <= i < ts.len() ==> no_newline(#[trigger] ts[i]),
    ensures
        line_lens(emit_fold(ts).0).0 <= 70,
        line_lens(emit_fold(ts).0).1 == 0,
        emit_fold(ts).1.len() <= 70,
        no_newline(emit_fold(ts).1),
    decreases ts.len(),
{
    if ts.len() > 0 {
        let ts0 = ts.drop_last();
        lemma_emit_fold_budget(ts0);
        let prev = emit_fold(ts0);
        let t = ts.last();
        assert(1 <= t.len() <= 69 && no_newline(t));
        if prev.1.len() + t.len() + 1 > 70 {
            let trimmed = line_trim(prev.1);
            assert(no_newline(trimmed));
            assert(trimmed.len() <= 69);
            lemma_line_lens_append_no_newline(prev.0, trimmed);
            lemma_line_lens_append_newline(prev.0 + trimmed);
            assert(no_newline(t + seq![' ']));
        } else {
            assert(no_newline(prev.1 + t + seq![' ']));
        }
    }
}

/// Every value a canvas row serializes is one to three digits.
proof fn lemma_row_tokens_ok<T: Scalar>(row: Seq<Color<T>>)
    ensures
        forall|i: int|
            0 <= i < row_tokens(row).len() ==> 1 <= (#[trigger] row_tokens(row)[i]).len() <= 3,
        forall|i: int|
            0 <= i < row_tokens(row).len() ==> no_newline(#[trigger] row_tokens(row)[i]),
{
    assert forall|i: int|
        0 <= i < row_tokens(row).len() implies 1 <= (#[trigger] row_tokens(row)[i]).len() <= 3
        && no_newline(row_tokens(row)[i]) by {
        let c = row[i / 3];
        let k = i % 3;
        lemma_dec_len_channel(c.red.channel_s() as int);
        lemma_dec_len_channel(c.green.channel_s() as int);
        lemma_dec_len_channel(c.blue.channel_s() as int);
        lemma_dec_no_newline(c.red.channel_s() as int);
        lemma_dec_no_newline(c.green.channel_s() as int);
        lemma_dec_no_newline(c.blue.channel_s() as int);
    };
}

/// The text of one canvas row keeps every line within the 70-column
/// budget and ends at a line boundary.
proof fn lemma_row_text_budget<T: Scalar>(row: Seq<Color<T>>)
    ensures
        line_lens(row_text(row)).0 <= 70,
        line_lens(row_text(row)).1 == 0,
{
    lemma_row_tokens_ok(row);
    lemma_emit_fold_budget(row_tokens(row));
    let f = emit_fold(row_tokens(row));
    if f.1.len() > 0 {
        let trimmed = line_trim(f.1);
        assert(no_newline(trimmed));
        assert(trimmed.len() <= 69);
        lemma_line_lens_append_no_newline(f.0, trimmed);
        lemma_line_lens_append_newline(f.0 + trimmed);
    }
}

/// The whole raster keeps every line within the budget: each row's text
/// composes at a line boundary.
proof fn lemma_rows_text_budget<T: Scalar>(c: Canvas<T>, n: int)
    ensures
        line_lens(c.rows_text(n)).0 <= 70,
        line_lens(c.rows_text(n)).1 == 0,
    decreases n,
{
    if n > 0 {
        lemma_rows_text_budget(c, n - 1);
        lemma_row_text_budget(c.row_at(n - 1));
        lemma_line_lens_append_block(c.rows_text(n - 1), row_text(c.row_at(n - 1)));
    }
}

/// Ten to the `d`th power.
spec fn pow10_int(d: int) -> int
    decreases d,
{
    if d <= 0 {
        1
    } else {
        10 * pow10_int(d - 1)
    }
}

proof fn lemma_pow10_pos(d: int)
    ensures
        pow10_int(d) >= 1,
    decreases d,
{
    if d > 0 {
        lemma_pow10_pos(d - 1);
    }
}

/// A number below ten to the `d`th renders in at most `d` digits.
proof fn lemma_dec_len_le(n: int, d: int)
    requires
        0 <= n < pow10_int(d),
        1 <= d,
    ensures
        dec_spec(n).len() <= d,
    decreases d,
{
    if n >= 10 {
        lemma_pow10_pos(d - 1);
        vstd::arithmetic::div_mod::lemma_fundamental_div_mod(n, 10);
        assert(n / 10 < pow10_int(d - 1)) by (nonlinear_arith)
            requires
                10 * (n / 10) <= n,
                n < 10 * pow10_int(d - 1),
        ;
        lemma_dec_len_le(n / 10, d - 1);
    }
}

/// Any 64-bit value renders in at most twenty digits.
proof fn lemma_dec_len_u64(n: int)
    requires
        0 <= n <= u64::MAX,
    ensures
        dec_spec(n).len() <= 20,
{
    assert(pow10_int(0) == 1);
    assert(pow10_int(1) == 10);
    assert(pow10_int(2) == 100);
    assert(pow10_int(3) == 1000);
    assert(pow10_int(4) == 10000);
    assert(pow10_int(5) == 100000);
    assert(pow10_int(6) == 1000000);
    assert(pow10_int(7) == 10000000);
    assert(pow10_int(8) == 100000000);
    assert(pow10_int(9) == 1000000000);
    assert(pow10_int(10) == 10000000000);
    assert(pow10_int(11) == 100000000000);
    assert(pow10_int(12) == 1000000000000);
    assert(pow10_int(13) == 10000000000000);
    assert(pow10_int(14) == 100000000000000);
    assert(pow10_int(15) == 1000000000000000);
    assert(pow10_int(16) == 10000000000000000);
    assert(pow10_int(17) == 100000000000000000);
    assert(pow10_int(18) == 1000000000000000000);
    assert(pow10_int(19) == 10000000000000000000);
    assert(pow10_int(20) == 100000000000000000000);
    lemma_dec_len_le(n, 20);
}

/// The header's three lines stay far inside the budget: the longest is
/// the dimension line, at most two 20-digit numbers and a space.
proof fn lemma_header_budget<T: Scalar>(c: Canvas<T>)
    ensures
        line_lens(c.header_s()).0 <= 70,
        line_lens(c.header_s()).1 == 0,
{
    let e = Seq::<char>::empty();
    let p3 = seq!['P', '3'];
    let dw = dec_spec(c.width as int);
    let dh = dec_spec(c.height as int);
    let tail255 = seq!['2', '5', '5'];
    lemma_dec_len_u64(c.width as int);
    lemma_dec_len_u64(c.height as int);
    lemma_dec_no_newline(c.width as int);
    lemma_dec_no_newline(c.height as int);
    assert(no_newline(p3));
    assert(no_newline(seq![' ']));
    assert(no_newline(tail255));
    lemma_line_lens_append_no_newline(e, p3);
    assert(e + p3 =~= p3);
    lemma_line_lens_append_newline(p3);
    let h1 = p3 + seq!['\n'];
    lemma_line_lens_append_no_newline(h1, dw);
    lemma_line_lens_append_no_newline(h1 + dw, seq![' ']);
    lemma_line_lens_append_no_newline(h1 + dw + seq![' '], dh);
    lemma_line_lens_append_newline(h1 + dw + seq![' '] + dh);
    let h2 = h1 + dw + seq![' '] + dh + seq!['\n'];
    lemma_line_lens_append_no_newline(h2, tail255);
    lemma_line_lens_append_newline(h2 + tail255);
    assert(c.header_s() =~= h2 + tail255 + seq!['\n']);
}

impl<T: Scalar> Canvas<T> {
    /// No line of the serialized image is longer than 70 characters, and
    /// the text ends at a line boundary: the serializer's hard format
    /// constraint, proved for every canvas.
    pub proof fn lemma_ppm_line_budget(self)
        ensures
            line_lens(self.ppm_s()).0 <= 70,
            line_lens(self.ppm_s()).1 == 0,
    {
        lemma_header_budget(self);
        lemma_rows_text_budget(self, self.height as int);
        lemma_line_lens_append_block(self.header_s(), self.rows_text(self.height as int));
    }
}

/// Appends one pixel's three channel values to the text being built:
/// three `fold_step`s of the serialization spec, advancing it from value
/// `k` to value `k + 3` of the row. `pre` names the text that preceded
/// this row's finished lines.
#[verifier::rlimit(100)]
fn push_pixel<T: Scalar>(
    out: &mut String,
    line: &mut String,
    c: Color<T>,
    Ghost(ts): Ghost<Seq<Seq<char>>>,
    Ghost(k): Ghost<int>,
    Ghost(pre): Ghost<Seq<char>>,
)
    requires
        old(line)@.len() <= 70,
        0 <= k,
        k + 3 <= ts.len(),
        ts[k] == channel_token(c, 0),
        ts[k + 1] == channel_token(c, 1),
        ts[k + 2] == channel_token(c, 2),
        old(out)@ == pre + emit_fold(ts.take(k)).0,
        line_repr(old(line)@) == emit_fold(ts.take(k)).1,
    ensures
        final(line)@.len() <= 70,
        final(out)@ == pre + emit_fold(ts.take(k + 3)).0,
        line_repr(final(line)@) == emit_fold(ts.take(k + 3)).1,
{
    proof {
        lemma_emit_fold_step(ts, k);
    }
    push_value(out, line, c.red.channel());
    proof {
        lemma_emit_fold_step(ts, k + 1);
        assert(out@ =~= pre + emit_fold(ts.take(k + 1)).0);
    }
    push_value(out, line, c.green.channel());
    proof {
        lemma_emit_fold_step(ts, k + 2);
        assert(out@ =~= pre + emit_fold(ts.take(k + 2)).0);
    }
    push_value(out, line, c.blue.channel());
    proof {
        assert(out@ =~= pre + emit_fold(ts.take(k + 3)).0);
    }
}

/// Appends one channel value to the text being built: `out` holds the
/// finished lines and `line` the pending one, kept without its trailing
/// separator. Exactly one `fold_step` of the serialization spec.
fn push_value(out: &mut String, line: &mut String, v: u8)
    requires
        old(line)@.len() <= 70,
    ensures
        final(out)@ == fold_step((old(out)@, line_repr(old(line)@)), dec_spec(v as int)).0,
        line_repr(final(line)@) == fold_step(
            (old(out)@, line_repr(old(line)@)),
            dec_spec(v as int),
        ).1,
        final(line)@.len() <= 70,
{
    proof {
        lemma_dec_len_channel(v as int);
    }
    let tok = dec_string(v as u64);
    let tlen = tok.as_str().unicode_len();
    let llen = line.as_str().unicode_len();
    let cur = if llen == 0 {
        0
    } else {
        llen + 1
    };
    if cur + tlen + 1 > 70 {
        out.append(line.as_str());
        out.append("\n");
        *line = String::new();
        line.append(tok.as_str());
        proof {
            reveal_strlit("\n");
            lemma_line_repr_trim(old(line)@);
            assert(final(out)@ =~= fold_step(
                (old(out)@, line_repr(old(line)@)),
                dec_spec(v as int),
            ).0);
            assert(line_repr(final(line)@) =~= fold_step(
                (old(out)@, line_repr(old(line)@)),
                dec_spec(v as int),
            ).1);
        }
    } else {
        if llen > 0 {
            line.append(" ");
        }
        line.append(tok.as_str());
        proof {
            reveal_strlit(" ");
            assert(final(out)@ =~= fold_step(
                (old(out)@, line_repr(old(line)@)),
                dec_spec(v as int),
            ).0);
            assert(line_repr(final(line)@) =~= fold_step(
                (old(out)@, line_repr(old(line)@)),
                dec_spec(v as int),
            ).1);
        }
    }
}

} // verus!

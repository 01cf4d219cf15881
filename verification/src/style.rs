//! Trusted boundary to the `console` crate's pure text routines: display
//! width, width-aware padding, and terminal styling.
//!
//! Widths and padding are functions of the text alone, so their results get
//! names (`width_of`, `pad_of`).  Styling output depends on the terminal
//! environment (whether colors are enabled), so no style wrapper names its
//! result; each promises only what holds of every outcome: the input text
//! appears intact between two possibly-empty escape-code sequences, which
//! add no line break and no display width.

use vstd::prelude::*;

verus! {

/// The display width that `console::measure_text_width` assigns to a text.
pub uninterp spec fn width_of(s: Seq<char>) -> int;

/// What `console::pad_str_with` makes of a text for a target width, with a
/// `...` truncation marker and left alignment.
pub uninterp spec fn pad_of(s: Seq<char>, width: int, fill: char) -> Seq<char>;

/// Is every character a printable ASCII character (space through tilde)?
pub open spec fn is_printable_ascii(s: Seq<char>) -> bool {
    forall|i: int| 0 <= i < s.len() ==> (0x20 <= #[trigger] s[i] as int && s[i] as int <= 0x7e)
}

/// A truncation result: a prefix of `s`, then the `...` marker, then some
/// remainder drawn from `s`'s own characters (its trailing escape codes).
pub open spec fn truncation_shape(s: Seq<char>, k: int, b: Seq<char>) -> Seq<char> {
    (s.take(k) + "..."@) + b
}

/// Was `r` made from `s` by cutting and appending the `...` marker?
pub open spec fn truncated_with_marker(r: Seq<char>, s: Seq<char>) -> bool {
    exists|k: int, b: Seq<char>|
        {
            &&& r == #[trigger] truncation_shape(s, k, b)
            &&& 0 <= k <= s.len()
            &&& forall|i: int| 0 <= i < b.len() ==> s.contains(#[trigger] b[i])
        }
}

/// Relies on console::measure_text_width: the displayed width of `s`, ANSI
/// escape sequences excluded.  Its fast path returns the byte length
/// whenever every byte is printable ASCII.
#[verifier::external_body]
pub fn text_width(s: &str) -> (r: usize)
    ensures
        r as int == width_of(s@),
        is_printable_ascii(s@) ==> r as int == s@.len(),
{
    console::measure_text_width(s)
}

/// Fits `s` into `l` display columns by truncating with a `...` marker, or
/// by appending copies of `ch`.
/// Relies on console::pad_str_with (left alignment): a text narrower than
/// `l` gets exactly `l - width` fill characters appended; one exactly `l`
/// wide comes back unchanged; a wider one is cut and given the marker, kept
/// to its own characters otherwise.  For printable-ASCII text the width is
/// the character count (the measuring fast path).
#[verifier::external_body]
pub fn string_to_len(s: &str, l: usize, ch: char) -> (r: String)
    ensures
        r@ == pad_of(s@, l as int, ch),
        width_of(s@) < l ==> r@ == s@ + crate::text::repeated(ch, (l - width_of(s@)) as nat),
        is_printable_ascii(s@) && s@.len() < l ==> r@ == s@ + crate::text::repeated(
            ch,
            (l - s@.len()) as nat,
        ),
        width_of(s@) == l ==> r@ == s@,
        width_of(s@) > l ==> truncated_with_marker(r@, s@),
        crate::text::no_newline(s@) && ch != '\n' ==> crate::text::no_newline(r@),
{
    console::pad_str_with(s, l, console::Alignment::Left, Some("..."), ch).into_owned()
}

/// Relies on console::style(..).bold(): renders as `s` between possibly
/// empty ANSI sequences, which add no line break and no display width.
#[verifier::external_body]
pub fn style_bold(s: &str) -> (r: String)
    ensures
        crate::text::embeds_inline(r@, s@),
        width_of(r@) == width_of(s@),
{
    console::style(s).bold().to_string()
}

/// Relies on console::style(..).dim(): renders as `s` between possibly
/// empty ANSI sequences, which add no line break and no display width.
#[verifier::external_body]
pub fn style_dim(s: &str) -> (r: String)
    ensures
        crate::text::embeds_inline(r@, s@),
        width_of(r@) == width_of(s@),
{
    console::style(s).dim().to_string()
}

/// Relies on console::style(..).white(): renders as `s` between possibly
/// empty ANSI sequences, which add no line break and no display width.
#[verifier::external_body]
pub fn style_white(s: &str) -> (r: String)
    ensures
        crate::text::embeds_inline(r@, s@),
        width_of(r@) == width_of(s@),
{
    console::style(s).white().to_string()
}

/// Relies on console::style(..).yellow(): renders as `s` between possibly
/// empty ANSI sequences, which add no line break and no display width.
#[verifier::external_body]
pub fn style_yellow(s: &str) -> (r: String)
    ensures
        crate::text::embeds_inline(r@, s@),
        width_of(r@) == width_of(s@),
{
    console::style(s).yellow().to_string()
}

/// Relies on console::style(..).red(): renders as `s` between possibly
/// empty ANSI sequences, which add no line break and no display width.
#[verifier::external_body]
pub fn style_red(s: &str) -> (r: String)
    ensures
        crate::text::embeds_inline(r@, s@),
        width_of(r@) == width_of(s@),
{
    console::style(s).red().to_string()
}

/// Relies on console::style(..).green(): renders as `s` between possibly
/// empty ANSI sequences, which add no line break and no display width.
#[verifier::external_body]
pub fn style_green(s: &str) -> (r: String)
    ensures
        crate::text::embeds_inline(r@, s@),
        width_of(r@) == width_of(s@),
{
    console::style(s).green().to_string()
}

/// Relies on console::style(..).bold().black().on_white(): renders as `s`
/// between possibly empty ANSI sequences, which add no line break and no
/// display width.
#[verifier::external_body]
pub fn style_bold_black_on_white(s: &str) -> (r: String)
    ensures
        crate::text::embeds_inline(r@, s@),
        width_of(r@) == width_of(s@),
{
    console::style(s).bold().black().on_white().to_string()
}

/// Relies on console::style(..).bold().black().on_yellow(): renders as `s`
/// between possibly empty ANSI sequences, which add no line break and no
/// display width.
#[verifier::external_body]
pub fn style_bold_black_on_yellow(s: &str) -> (r: String)
    ensures
        crate::text::embeds_inline(r@, s@),
        width_of(r@) == width_of(s@),
{
    console::style(s).bold().black().on_yellow().to_string()
}

/// Relies on console::style(..).bold().white().on_red(): renders as `s`
/// between possibly empty ANSI sequences, which add no line break and no
/// display width.
#[verifier::external_body]
pub fn style_bold_white_on_red(s: &str) -> (r: String)
    ensures
        crate::text::embeds_inline(r@, s@),
        width_of(r@) == width_of(s@),
{
    console::style(s).bold().white().on_red().to_string()
}

/// Relies on console::style(..).bold().black().on_green(): renders as `s`
/// between possibly empty ANSI sequences, which add no line break and no
/// display width.
#[verifier::external_body]
pub fn style_bold_black_on_green(s: &str) -> (r: String)
    ensures
        crate::text::embeds_inline(r@, s@),
        width_of(r@) == width_of(s@),
{
    console::style(s).bold().black().on_green().to_string()
}

} // verus!

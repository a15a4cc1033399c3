//! Text styles. A style paints a piece of text by wrapping it between an escape
//! prefix and suffix; the text itself is written unchanged in between.
//!
//! Styles are described with [`owo_colors::Style`] and turned into their two
//! escape sequences by owo-colors itself.

use vstd::prelude::*;
use vstd::string::*;

use crate::visible::{
    escape_after, lemma_escape_invisible, lemma_plain_visible, lemma_visible_concat, lemma_wrap_escape, no_esc, no_m,
    visible,
};

verus! {

#[verifier::external_type_specification]
#[verifier::external_body]
pub struct ExOwoStyle(owo_colors::Style);

/// What `Style::prefix_formatter` of owo-colors displays for `style`: a
/// function of the style alone.
pub uninterp spec fn owo_prefix_text(style: owo_colors::Style) -> Seq<char>;

/// The reset that follows text styled by a style whose prefix is `prefix`:
/// nothing after an empty prefix, otherwise `ESC [0m`.
pub open spec fn suffix_after(prefix: Seq<char>) -> Seq<char> {
    if prefix.len() == 0 { Seq::empty() } else { seq!['\x1b', '[', '0', 'm'] }
}

/// The escape sequence that `Style::prefix_formatter` of owo-colors displays:
/// `owo_prefix_text(style)`, which is empty for a plain style and otherwise
/// `ESC [`, SGR parameters (ASCII digits and `;`), then `m`.
#[verifier::external_body]
fn owo_prefix(style: &owo_colors::Style) -> (r: String)
    ensures
        r@ == owo_prefix_text(*style),
        r@.len() == 0 || is_sgr_escape(r@),
{
    format!("{}", style.prefix_formatter())
}

/// The escape sequence that `Style::suffix_formatter` of owo-colors displays:
/// the SGR reset `ESC [0m` exactly when the style is not plain, that is exactly
/// when its prefix is not empty; nothing otherwise.
#[verifier::external_body]
fn owo_suffix(style: &owo_colors::Style) -> (r: String)
    ensures
        r@ == suffix_after(owo_prefix_text(*style)),
{
    format!("{}", style.suffix_formatter())
}

/// `c` may stand among the parameters of an SGR escape.
pub open spec fn sgr_param_char(c: char) -> bool {
    ('0' <= c && c <= '9') || c == ';'
}

/// `s` is `ESC [`, SGR parameters, then `m`.
pub open spec fn is_sgr_escape(s: Seq<char>) -> bool {
    &&& s.len() >= 3
    &&& s[0] == '\x1b'
    &&& s[1] == '['
    &&& s.last() == 'm'
    &&& forall|i: int| 2 <= i < s.len() - 1 ==> sgr_param_char(#[trigger] s[i])
}

/// A style reduced to the two escape sequences it writes around styled text.
#[derive(Clone)]
pub struct TextStyle {
    /// Written before the text.
    pub prefix: String,
    /// Written after the text.
    pub suffix: String,
}

/// `text` painted with `style`: the prefix, the text, the suffix.
pub open spec fn styled(style: TextStyle, text: Seq<char>) -> Seq<char> {
    style.prefix@ + text + style.suffix@
}

impl TextStyle {
    /// This style holds the escapes that owo-colors writes around text styled
    /// with `style`.
    pub open spec fn written_for(&self, style: owo_colors::Style) -> bool {
        &&& self.prefix@ == owo_prefix_text(style)
        &&& self.suffix@ == suffix_after(owo_prefix_text(style))
    }

    /// The prefix is empty or one SGR escape; the suffix is empty or the reset.
    pub open spec fn wf(&self) -> bool {
        &&& self.prefix@.len() == 0 || is_sgr_escape(self.prefix@)
        &&& self.suffix@ == Seq::<char>::empty() || self.suffix@ == seq!['\x1b', '[', '0', 'm']
    }

    /// The style that writes no escapes at all.
    pub fn plain() -> (s: TextStyle)
        ensures
            s.prefix@ == Seq::<char>::empty(),
            s.suffix@ == Seq::<char>::empty(),
            s.wf(),
    {
        TextStyle { prefix: String::new(), suffix: String::new() }
    }

    /// The escapes that owo-colors writes for `style`.
    pub fn from_owo(style: owo_colors::Style) -> (s: TextStyle)
        ensures
            s.written_for(style),
            s.wf(),
    {
        TextStyle { prefix: owo_prefix(&style), suffix: owo_suffix(&style) }
    }

    /// An identical copy of this style.
    pub fn duplicate(&self) -> (s: TextStyle)
        ensures
            s == *self,
    {
        TextStyle { prefix: self.prefix.clone(), suffix: self.suffix.clone() }
    }

    /// Append `text` painted with this style to `buf`.
    pub fn push_styled(&self, buf: &mut String, text: &str)
        ensures
            final(buf)@ == old(buf)@ + styled(*self, text@),
    {
        let ghost b0 = buf@;
        buf.append(self.prefix.as_str());
        buf.append(text);
        buf.append(self.suffix.as_str());
        assert(buf@ =~= b0 + styled(*self, text@));
    }
}

proof fn lemma_style_escapes(style: TextStyle)
    requires
        style.wf(),
    ensures
        visible(style.prefix@) == Seq::<char>::empty(),
        !escape_after(style.prefix@, false),
        visible(style.suffix@) == Seq::<char>::empty(),
        !escape_after(style.suffix@, false),
{
    let p = style.prefix@;
    let q = style.suffix@;
    if p.len() > 0 {
        assert(no_m(p.subrange(1, p.len() - 1))) by {
            assert forall|i: int| 0 <= i < p.len() - 2 implies #[trigger] p.subrange(1, p.len() - 1)[i] != 'm' by {
                assert(p.subrange(1, p.len() - 1)[i] == p[i + 1]);
                if i + 1 >= 2 {
                    assert(sgr_param_char(p[i + 1]));
                }
            }
        }
        lemma_escape_invisible(p);
    } else {
        assert(visible(p) =~= Seq::<char>::empty());
    }
    if q.len() > 0 {
        assert(no_m(seq!['[', '0']));
        lemma_wrap_escape(seq!['[', '0']);
        assert(q =~= seq!['\x1b'] + seq!['[', '0'] + seq!['m']);
        lemma_escape_invisible(q);
    } else {
        assert(visible(q) =~= Seq::<char>::empty());
    }
}

/// Styled text never leaves the terminal inside an escape.
pub proof fn lemma_styled_ends_outside(style: TextStyle, text: Seq<char>)
    requires
        style.wf(),
        no_esc(text),
    ensures
        !escape_after(styled(style, text), false),
{
    lemma_style_escapes(style);
    lemma_plain_visible(text);
    lemma_visible_concat(style.prefix@, text, false);
    lemma_visible_concat(style.prefix@ + text, style.suffix@, false);
}

/// Styling changes nothing visible: stripped of its escapes, styled text shows
/// exactly the text.
pub proof fn lemma_styled_shows_text(style: TextStyle, text: Seq<char>)
    requires
        style.wf(),
        no_esc(text),
    ensures
        visible(styled(style, text)) == text,
{
    let p = style.prefix@;
    let q = style.suffix@;
    lemma_style_escapes(style);
    lemma_plain_visible(text);
    lemma_visible_concat(p, text, false);
    lemma_visible_concat(p + text, q, false);
    assert(visible(styled(style, text)) =~= text);
}

} // verus!

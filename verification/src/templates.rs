//! The bridge to the `uritemplate` crate: a URI template is an opaque value
//! holding its template text and the variables set so far, and what an
//! expansion produces is named, never restated. The expansion depends on the
//! template text and the variables alone.
//!
//! Not every template text can be handed over: the expander indexes a
//! placeholder by its byte length, which panics when a placeholder holds a
//! non-ASCII character, and a `:` prefix modifier slices the value by a byte
//! range, which panics mid-character on multi-byte values. `template_ok`
//! checks, in verified code, that a template keeps clear of both.

use vstd::prelude::*;

verus! {

#[verifier::external_type_specification]
#[verifier::external_body]
pub struct ExUriTemplate(uritemplate::UriTemplate);

/// The template text a URI template was built from.
pub uninterp spec fn ut_template(t: uritemplate::UriTemplate) -> Seq<char>;

/// The variables set on a URI template so far: placeholder name to value.
pub uninterp spec fn ut_vars(t: uritemplate::UriTemplate) -> Map<Seq<char>, Seq<char>>;

/// What expanding a template with given variables produces: each placeholder
/// substituted by its percent-encoded value.
pub uninterp spec fn uri_expansion(template: Seq<char>, vars: Map<Seq<char>, Seq<char>>) -> Seq<char>;

/// Whether a character may stand inside a placeholder: ASCII, so that the
/// expander's byte-length indexing stays within the characters, and not the
/// `:` prefix modifier, whose byte-range slicing can split a multi-byte
/// character of the value at expansion time.
pub open spec fn placeholder_char_ok(c: char) -> bool {
    (c as int) < 128 && c != ':'
}

/// Whether the rest of a template text, from position `i` on and starting
/// inside or outside a placeholder, holds only acceptable placeholders.
pub open spec fn template_ok_from(t: Seq<char>, i: int, in_list: bool) -> bool
    decreases t.len() - i,
{
    if i < 0 || i >= t.len() {
        true
    } else if in_list {
        if t[i] == '}' {
            template_ok_from(t, i + 1, false)
        } else {
            placeholder_char_ok(t[i]) && template_ok_from(t, i + 1, true)
        }
    } else {
        if t[i] == '{' {
            template_ok_from(t, i + 1, true)
        } else {
            template_ok_from(t, i + 1, false)
        }
    }
}

/// Whether a template text can be expanded without fault: every character
/// between `{` and `}` is ASCII and is not a `:` prefix modifier. Text
/// outside placeholders is unrestricted.
pub open spec fn spec_template_ok(t: Seq<char>) -> bool {
    template_ok_from(t, 0, false)
}

/// Checks that a template text can be expanded without fault.
pub fn template_ok(t: &str) -> (r: bool)
    ensures
        r == spec_template_ok(t@),
{
    let n = t.unicode_len();
    let mut i: usize = 0;
    let mut in_list: bool = false;
    while i < n
        invariant
            n == t@.len(),
            0 <= i <= n,
            spec_template_ok(t@) == template_ok_from(t@, i as int, in_list),
        decreases n - i,
    {
        let c = t.get_char(i);
        if in_list {
            if c == '}' {
                in_list = false;
            } else if (c as u32) < 128 && c != ':' {
            } else {
                return false;
            }
        } else {
            if c == '{' {
                in_list = true;
            }
        }
        i += 1;
    }
    true
}

/// A variable map with nothing set yet.
pub open spec fn empty_vars() -> Map<Seq<char>, Seq<char>> {
    Map::<Seq<char>, Seq<char>>::empty()
}

/// Relies on `uritemplate::UriTemplate::new`: a fresh template holds the
/// given template text and no variables. The `requires` keeps out templates
/// the parser cannot take: it indexes each placeholder by its byte length,
/// which panics on a non-ASCII placeholder character.
#[verifier::external_body]
pub(crate) fn template_new(template: &str) -> (r: uritemplate::UriTemplate)
    requires
        spec_template_ok(template@),
    ensures
        ut_template(r) == template@,
        ut_vars(r) == empty_vars(),
{
    uritemplate::UriTemplate::new(template)
}

/// Relies on `uritemplate::UriTemplate::set`: setting a variable stores its
/// value under the placeholder name, replacing any earlier value, and leaves
/// the template text alone.
#[verifier::external_body]
pub(crate) fn template_set(t: &mut uritemplate::UriTemplate, varname: &str, value: &str)
    ensures
        ut_template(*final (t)) == ut_template(*old(t)),
        ut_vars(*final (t)) == ut_vars(*old(t)).insert(varname@, value@),
{
    t.set(varname, value);
}

/// Relies on `uritemplate::UriTemplate::build`: the expansion of the
/// template text under the variables set so far. The `requires` keeps out
/// templates with a `:` prefix modifier, whose expansion slices the value by
/// a byte range and panics mid-character on a multi-byte value.
#[verifier::external_body]
pub(crate) fn template_build(t: &uritemplate::UriTemplate) -> (r: String)
    requires
        spec_template_ok(ut_template(*t)),
    ensures
        r@ == uri_expansion(ut_template(*t), ut_vars(*t)),
{
    t.build()
}

} // verus!

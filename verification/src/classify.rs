//! The decision that is made on every item before a byte of it is stored.

use crate::policy::{text_of, LimitPolicy, LimitPolicyView};
use vstd::prelude::*;
use vstd::std_specs::iter::IteratorSpec;

verus! {

/// What the headers of one multipart item declare.
pub struct ItemMetaView {
    /// The form field that the item came under.
    pub field_name: Seq<char>,
    /// The content type that the client declared, if any.
    pub content_type: Option<Seq<char>>,
    /// The file name that the client declared, if any.
    pub filename: Option<Seq<char>>,
}

/// The headers of one multipart item. All of it is the client's word.
#[derive(Clone, Debug, PartialEq, Eq)]
pub struct ItemMeta {
    /// The form field that the item came under.
    pub field_name: String,
    /// The content type that the client declared, if any.
    pub content_type: Option<String>,
    /// The file name that the client declared, if any.
    pub filename: Option<String>,
}

impl View for ItemMeta {
    type V = ItemMetaView;

    open spec fn view(&self) -> ItemMetaView {
        ItemMetaView {
            field_name: self.field_name@,
            content_type: text_of(self.content_type),
            filename: text_of(self.filename),
        }
    }
}

/// What becomes of an item.
#[derive(Clone, Copy, Debug, PartialEq, Eq, Structural)]
pub enum Decision {
    /// The item is stored.
    Accept,
    /// The item is passed over: it declares no content type, or one that the
    /// policy does not list.
    SkipUnsupported,
    /// The item is passed over: it came under another form field than the
    /// policy requires.
    SkipWrongField,
}

/// Whether the text of a media type carries parameters: whether it holds a
/// semicolon.
pub open spec fn has_parameters(text: Seq<char>) -> bool {
    text.contains(';')
}

/// Whether `c` may stand in the type or the subtype of a media type: a letter,
/// a digit, or one of ``! # $ % & ' * + - . ^ _ ` | ~``.
pub open spec fn is_token_char(c: char) -> bool {
    ||| c == '!'
    ||| ('#' <= c && c <= '\'')
    ||| c == '*'
    ||| c == '+'
    ||| c == '-'
    ||| c == '.'
    ||| ('0' <= c && c <= '9')
    ||| ('A' <= c && c <= 'Z')
    ||| ('^' <= c && c <= 'z')
    ||| c == '|'
    ||| c == '~'
}

/// Whether `text` is a media type without parameters: a type of one or more
/// token characters, a slash, and a subtype of token characters.
pub open spec fn is_plain_media_type(text: Seq<char>) -> bool {
    exists|slash: int|
        0 < slash < text.len() && #[trigger] text[slash] == '/' && forall|j: int|
            0 <= j < text.len() && j != slash ==> is_token_char(#[trigger] text[j])
}

/// Whether two characters are the same but for the case of an ASCII letter.
pub open spec fn same_char_ignoring_case(x: char, y: char) -> bool {
    ||| x == y
    ||| ('A' <= x && x <= 'Z' && 'a' <= y && y <= 'z' && x as u32 + 32 == y as u32)
    ||| ('a' <= x && x <= 'z' && 'A' <= y && y <= 'Z' && y as u32 + 32 == x as u32)
}

/// Whether two texts are the same but for the case of their ASCII letters.
pub open spec fn same_ignoring_case(a: Seq<char>, b: Seq<char>) -> bool {
    &&& a.len() == b.len()
    &&& forall|i: int| 0 <= i < a.len() ==> same_char_ignoring_case(#[trigger] a[i], b[i])
}

/// What `Mime`'s `==` gives for an accepted type without parameters, on the
/// left, and a declared type with parameters, on the right, each as
/// `Mime::from_str` reads it; `false` where either text is no media type.
pub uninterp spec fn mime_equal(accepted: Seq<char>, declared: Seq<char>) -> bool;

/// Whether a declared type is the accepted one.
///
/// An accepted type that carries parameters matches nothing. Where the
/// declared type carries none either, the two match if the accepted one is a
/// media type and they are the same but for the case of their letters. A
/// declared type with parameters matches as the `mime` crate compares it.
pub open spec fn media_types_match(accepted: Seq<char>, declared: Seq<char>) -> bool {
    !has_parameters(accepted) && if has_parameters(declared) {
        mime_equal(accepted, declared)
    } else {
        is_plain_media_type(accepted) && same_ignoring_case(accepted, declared)
    }
}

/// Compares an accepted media type with a declared one, both given as text.
///
/// Wraps `mime::Mime::from_str`, through `str::parse`, and the `==` of the two
/// `Mime` values it returns, the accepted one on the left. Where a text does
/// not parse, the answer is `false`.
///
/// The accepted text must hold no semicolon. `from_str` then reads it without
/// parameters, and `==` compares the two lower-cased sources without regard
/// to the case of ASCII letters; it cuts neither text. (For a left operand
/// with parameters `==` cuts the right one at a byte index, and panics where
/// that index lies inside a character.)
///
/// A text without a semicolon parses exactly if it is one or more token
/// bytes, a slash and any number of token bytes, and is kept whole. So where
/// the declared text holds no semicolon either, the answer is stated in full.
/// Where it holds one, the answer is named.
#[verifier::external_body]
fn media_types_equal(accepted: &str, declared: &str) -> (same: bool)
    requires
        !has_parameters(accepted@),
    ensures
        has_parameters(declared@) ==> same == mime_equal(accepted@, declared@),
        !has_parameters(declared@) ==> same == (is_plain_media_type(accepted@)
            && same_ignoring_case(accepted@, declared@)),
{
    match (accepted.parse::<mime::Mime>(), declared.parse::<mime::Mime>()) {
        (Ok(a), Ok(b)) => a == b,
        _ => false,
    }
}

/// Whether the policy's list holds the declared type.
pub open spec fn type_accepted(accepted: Seq<Seq<char>>, declared: Seq<char>) -> bool {
    exists|i: int| 0 <= i < accepted.len() && media_types_match(#[trigger] accepted[i], declared)
}

/// Whether the item came under a field that the policy takes.
pub open spec fn field_matches(required: Option<Seq<char>>, field_name: Seq<char>) -> bool {
    match required {
        Some(name) => field_name == name,
        None => true,
    }
}

/// The decision for an item, from the three things that it rests on. A missing
/// or unlisted type is named before a wrong field.
pub open spec fn decision_of(declared: bool, listed: bool, field_fits: bool) -> Decision {
    if !declared || !listed {
        Decision::SkipUnsupported
    } else if !field_fits {
        Decision::SkipWrongField
    } else {
        Decision::Accept
    }
}

/// The decision for an item under a policy.
pub open spec fn classification(policy: LimitPolicyView, item: ItemMetaView) -> Decision {
    decision_of(
        item.content_type is Some,
        item.content_type is Some && type_accepted(policy.accepted_types, item.content_type->0),
        field_matches(policy.required_field_name, item.field_name),
    )
}

/// Decides on an item from the three things that the decision rests on:
/// whether it declares a type, whether the policy lists that type, and whether
/// it came under a field that the policy takes.
pub fn decide(declared: bool, listed: bool, field_fits: bool) -> (decision: Decision)
    ensures
        decision == decision_of(declared, listed, field_fits),
{
    if !declared || !listed {
        Decision::SkipUnsupported
    } else if !field_fits {
        Decision::SkipWrongField
    } else {
        Decision::Accept
    }
}

/// Whether the text of a media type carries parameters.
pub fn carries_parameters(text: &str) -> (found: bool)
    ensures
        found == has_parameters(text@),
{
    broadcast use vstd::string::group_string_axioms;

    let mut found = false;
    let mut it = text.chars();
    let ghost mut done: int = 0;
    assert(text@.subrange(0, text@.len() as int) =~= text@);
    loop
        invariant_except_break
            0 <= done <= text@.len(),
            it.remaining() == text@.subrange(done, text@.len() as int),
            forall|k: int| 0 <= k < done ==> text@[k] != ';',
            it.decrease() is Some,
            !found,
        ensures
            found == has_parameters(text@),
        decreases it.decrease()->0,
    {
        match it.next() {
            Some(c) => {
                assert(c == text@[done]);
                if c == ';' {
                    found = true;
                    break ;
                }
                proof {
                    done = done + 1;
                }
            },
            None => {
                assert(done == text@.len());
                break ;
            },
        }
    }
    found
}

/// Whether the policy's list holds the declared type.
pub fn is_type_accepted(accepted: &Vec<String>, declared: &str) -> (listed: bool)
    ensures
        listed == type_accepted(crate::policy::texts(accepted@), declared@),
{
    let ghost list = crate::policy::texts(accepted@);
    let mut i: usize = 0;
    while i < accepted.len()
        invariant
            i <= accepted.len(),
            list == crate::policy::texts(accepted@),
            forall|k: int| 0 <= k < i ==> !media_types_match(#[trigger] list[k], declared@),
        decreases accepted.len() - i,
    {
        assert(list[i as int] == accepted@[i as int]@);
        let entry = accepted[i].as_str();
        if !carries_parameters(entry) {
            if media_types_equal(entry, declared) {
                return true;
            }
        }
        i += 1;
    }
    false
}

/// Whether the item came under a field that the policy takes.
pub fn is_field_matching(required: &Option<String>, field_name: &String) -> (fits: bool)
    ensures
        fits == field_matches(text_of(*required), field_name@),
{
    match required {
        Some(name) => *field_name == *name,
        None => true,
    }
}

/// Decides on an item. It reads the item's headers and nothing of its body, so
/// that an item that is not accepted can be passed over unread.
pub fn classify(policy: &LimitPolicy, item: &ItemMeta) -> (decision: Decision)
    ensures
        decision == classification(policy@, item@),
{
    let listed = match &item.content_type {
        Some(declared) => is_type_accepted(policy.accepted_types(), declared.as_str()),
        None => false,
    };
    let fits = is_field_matching(policy.required_field_name(), &item.field_name);
    decide(item.content_type.is_some(), listed, fits)
}

} // verus!

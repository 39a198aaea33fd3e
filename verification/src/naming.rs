//! Names for what is stored.
//!
//! Every stored artifact is named by a [`Token`] that the library draws. What
//! the client sent as a file name never decides where a file lies: it is kept
//! as a suffix behind the token, without its path separators.

use vstd::prelude::*;
use vstd::std_specs::iter::IteratorSpec;

verus! {

/// Whether `c` separates the parts of a path.
pub open spec fn is_separator(c: char) -> bool {
    c == '/' || c == '\\'
}

/// Whether `c` is a digit of lower-case hexadecimal.
pub open spec fn is_lower_hex(c: char) -> bool {
    ('0' <= c && c <= '9') || ('a' <= c && c <= 'f')
}

/// Whether position `i` of a token holds a hyphen.
pub open spec fn is_hyphen_position(i: int) -> bool {
    i == 8 || i == 13 || i == 18 || i == 23
}

/// Whether `s` has the shape of a token: 36 characters, hyphens at positions
/// 8, 13, 18 and 23, lower-case hexadecimal digits at the others.
pub open spec fn is_token(s: Seq<char>) -> bool {
    &&& s.len() == 36
    &&& forall|i: int|
        0 <= i < 36 ==> if is_hyphen_position(i) {
            #[trigger] s[i] == '-'
        } else {
            is_lower_hex(s[i])
        }
}

/// Whether `s` is a token that marks itself as drawn at random: its version
/// digit is 4 and its variant digit is one of 8, 9, a, b.
pub open spec fn is_random_token(s: Seq<char>) -> bool {
    &&& is_token(s)
    &&& s[14] == '4'
    &&& (s[19] == '8' || s[19] == '9' || s[19] == 'a' || s[19] == 'b')
}

/// Whether no character of `s` is a path separator.
pub open spec fn separator_free(s: Seq<char>) -> bool {
    forall|i: int| 0 <= i < s.len() ==> !is_separator(#[trigger] s[i])
}

/// `s` without its path separators.
pub open spec fn sanitized(s: Seq<char>) -> Seq<char> {
    s.filter(|c: char| !is_separator(c))
}

/// The name of a file that holds an item as it came: the token, then, where the
/// client declared a file name, a hyphen and that name without its separators.
pub open spec fn raw_leaf(token: Seq<char>, filename: Option<Seq<char>>) -> Seq<char> {
    match filename {
        Some(name) => token + seq!['-'] + sanitized(name),
        None => token,
    }
}

/// The name of a converted file: the token, a dot and the extension without
/// its separators.
pub open spec fn converted_leaf(token: Seq<char>, extension: Seq<char>) -> Seq<char> {
    token + seq!['.'] + sanitized(extension)
}

/// The path of the file named `leaf` in the directory `dir`.
pub open spec fn path_in(dir: Seq<char>, leaf: Seq<char>) -> Seq<char> {
    dir + seq!['/'] + leaf
}

/// Whether `leaf` is a file name that a token alone places: it begins with the
/// token and holds no path separator.
pub open spec fn is_safe_leaf(token: Seq<char>, leaf: Seq<char>) -> bool {
    &&& is_token(token)
    &&& leaf.len() >= 36
    &&& leaf.subrange(0, 36) == token
    &&& separator_free(leaf)
}

/// An identifier for one stored artifact.
#[derive(Debug, PartialEq, Eq)]
pub struct Token {
    text: String,
}

impl View for Token {
    type V = Seq<char>;

    closed spec fn view(&self) -> Seq<char> {
        self.text@
    }
}

impl Clone for Token {
    fn clone(&self) -> (copy: Token)
        ensures
            copy@ == self@,
    {
        self.duplicate()
    }
}

/// Draws a version 4 UUID and writes it out.
///
/// Wraps `uuid::Uuid::new_v4` and the `Display` of the `Uuid` it returns. The
/// text is the hyphenated lower-case form: 32 hexadecimal digits in groups of
/// 8, 4, 4, 4 and 12. `new_v4` sets the version digit to 4 and the two highest
/// bits of the variant digit to `10`. Which digits come is left to the
/// operating system's random source, so nothing else is claimed, and two calls
/// may return the same text. `new_v4` panics where that source fails.
#[verifier::external_body]
fn random_uuid_text() -> (text: String)
    ensures
        is_random_token(text@),
{
    uuid::Uuid::new_v4().to_string()
}

/// Appends one character to a string.
///
/// Wraps `String::push`, which std documents as appending the given `char` to
/// the end of the string.
#[verifier::external_body]
fn push_char(s: &mut String, c: char)
    ensures
        final(s)@ == old(s)@.push(c),
{
    s.push(c)
}

impl Token {
    /// Whether the token's text has the shape of a token. Every token has.
    #[verifier::type_invariant]
    pub closed spec fn well_formed(self) -> bool {
        is_token(self.text@)
    }

    /// A well-formed token has the shape of a token.
    pub proof fn lemma_shape(self)
        requires
            self.well_formed(),
        ensures
            is_token(self@),
    {
    }

    /// Draws a new token at random.
    ///
    /// The token has the shape of a version 4 UUID. That it differs from every
    /// token drawn before is likely and not certain: see
    /// [`crate::orchestrator::Orchestrator::advance`] for what happens to one
    /// that a request has seen already.
    pub fn generate() -> (token: Token)
        ensures
            is_random_token(token@),
    {
        Token { text: random_uuid_text() }
    }

    /// Reads a token from its text.
    pub fn parse(text: &str) -> (token: Option<Token>)
        ensures
            token is Some <==> is_token(text@),
            token is Some ==> token->0@ == text@,
    {
        if text.unicode_len() != 36 {
            return None;
        }
        let mut i: usize = 0;
        while i < 36
            invariant
                text@.len() == 36,
                i <= 36,
                forall|k: int|
                    0 <= k < i ==> if is_hyphen_position(k) {
                        #[trigger] text@[k] == '-'
                    } else {
                        is_lower_hex(text@[k])
                    },
            decreases 36 - i,
        {
            let c: char = text.get_char(i);
            let fits: bool = if i == 8 || i == 13 || i == 18 || i == 23 {
                c == '-'
            } else {
                ('0' <= c && c <= '9') || ('a' <= c && c <= 'f')
            };
            if !fits {
                assert(is_hyphen_position(i as int) ==> text@[i as int] != '-');
                return None;
            }
            i += 1;
        }
        Some(Token { text: text.to_owned() })
    }

    /// The token's text.
    pub fn as_str(&self) -> (text: &str)
        ensures
            text@ == self@,
            is_token(self@),
    {
        proof {
            use_type_invariant(self);
        }
        self.text.as_str()
    }

    /// A copy of the token.
    pub fn duplicate(&self) -> (copy: Token)
        ensures
            copy@ == self@,
    {
        proof {
            use_type_invariant(self);
        }
        Token { text: self.text.clone() }
    }

    /// Whether two tokens are the same.
    pub fn same_as(&self, other: &Token) -> (same: bool)
        ensures
            same == (self@ == other@),
    {
        self.text == other.text
    }
}

/// Copies `name` without its path separators.
pub fn sanitize(name: &str) -> (out: String)
    ensures
        out@ == sanitized(name@),
{
    broadcast use vstd::string::group_string_axioms;

    let mut out = String::new();
    let mut it = name.chars();
    let ghost mut done: int = 0;
    assert(name@.subrange(0, 0) =~= Seq::<char>::empty());
    assert(name@.subrange(0, name@.len() as int) =~= name@);
    loop
        invariant
            0 <= done <= name@.len(),
            it.remaining() == name@.subrange(done, name@.len() as int),
            out@ == sanitized(name@.subrange(0, done)),
            it.decrease() is Some,
        ensures
            out@ == sanitized(name@),
        decreases it.decrease()->0,
    {
        match it.next() {
            Some(c) => {
                proof {
                    let before = name@.subrange(0, done);
                    let after = name@.subrange(0, done + 1);
                    assert(after =~= before.push(c));
                    assert(after.drop_last() =~= before);
                    reveal(Seq::filter);
                    done = done + 1;
                }
                if c != '/' && c != '\\' {
                    push_char(&mut out, c);
                }
            },
            None => {
                assert(name@.subrange(0, done) =~= name@);
                break ;
            },
        }
    }
    out
}

/// Builds the name of a file that holds an item as it came.
pub fn make_raw_leaf(token: &Token, filename: Option<&str>) -> (leaf: String)
    ensures
        leaf@ == raw_leaf(
            token@,
            match filename {
                Some(name) => Some(name@),
                None => None,
            },
        ),
        is_safe_leaf(token@, leaf@),
{
    let mut leaf = token.as_str().to_owned();
    match filename {
        Some(name) => {
            push_char(&mut leaf, '-');
            let suffix = sanitize(name);
            leaf.append(suffix.as_str());
            proof {
                assert(leaf@ =~= raw_leaf(token@, Some(name@)));
                lemma_raw_leaf_is_safe(token@, Some(name@));
            }
        },
        None => {
            proof {
                lemma_raw_leaf_is_safe(token@, None);
            }
        },
    }
    leaf
}

/// Builds the name of a converted file.
pub fn make_converted_leaf(token: &Token, extension: &str) -> (leaf: String)
    ensures
        leaf@ == converted_leaf(token@, extension@),
        is_safe_leaf(token@, leaf@),
{
    let mut leaf = token.as_str().to_owned();
    push_char(&mut leaf, '.');
    let suffix = sanitize(extension);
    leaf.append(suffix.as_str());
    proof {
        assert(leaf@ =~= converted_leaf(token@, extension@));
        lemma_converted_leaf_is_safe(token@, extension@);
    }
    leaf
}

/// Builds the path of the file named `leaf` in the directory `dir`.
pub fn make_path(dir: &str, leaf: &str) -> (path: String)
    ensures
        path@ == path_in(dir@, leaf@),
{
    let mut path = dir.to_owned();
    push_char(&mut path, '/');
    path.append(leaf);
    path
}

/// A token holds no path separator.
pub proof fn lemma_token_is_separator_free(token: Seq<char>)
    requires
        is_token(token),
    ensures
        separator_free(token),
{
    assert forall|i: int| 0 <= i < token.len() implies !is_separator(#[trigger] token[i]) by {
        if is_hyphen_position(i) {
            assert(token[i] == '-');
        } else {
            assert(is_lower_hex(token[i]));
        }
    }
}

/// What is left of a name after sanitizing holds no path separator.
pub proof fn lemma_sanitized_is_separator_free(s: Seq<char>)
    ensures
        separator_free(sanitized(s)),
{
    let keep = |c: char| !is_separator(c);
    assert forall|i: int| 0 <= i < sanitized(s).len() implies !is_separator(
        #[trigger] sanitized(s)[i],
    ) by {
        s.lemma_filter_pred(keep, i);
    }
}

/// Whatever file name the client declares, the name of the file that holds its
/// item begins with the token and holds no path separator.
pub proof fn lemma_raw_leaf_is_safe(token: Seq<char>, filename: Option<Seq<char>>)
    requires
        is_token(token),
    ensures
        is_safe_leaf(token, raw_leaf(token, filename)),
{
    let leaf = raw_leaf(token, filename);
    lemma_token_is_separator_free(token);
    match filename {
        Some(name) => {
            lemma_sanitized_is_separator_free(name);
            assert(leaf.subrange(0, 36) =~= token);
            assert forall|i: int| 0 <= i < leaf.len() implies !is_separator(#[trigger] leaf[i]) by {
                if i < 36 {
                    assert(leaf[i] == token[i]);
                } else if i == 36 {
                    assert(leaf[i] == '-');
                } else {
                    assert(leaf[i] == sanitized(name)[i - 37]);
                }
            }
        },
        None => {
            assert(leaf.subrange(0, 36) =~= token);
        },
    }
}

/// Whatever the extension, the name of a converted file begins with the token
/// and holds no path separator.
pub proof fn lemma_converted_leaf_is_safe(token: Seq<char>, extension: Seq<char>)
    requires
        is_token(token),
    ensures
        is_safe_leaf(token, converted_leaf(token, extension)),
{
    let leaf = converted_leaf(token, extension);
    lemma_token_is_separator_free(token);
    lemma_sanitized_is_separator_free(extension);
    assert(leaf.subrange(0, 36) =~= token);
    assert forall|i: int| 0 <= i < leaf.len() implies !is_separator(#[trigger] leaf[i]) by {
        if i < 36 {
            assert(leaf[i] == token[i]);
        } else if i == 36 {
            assert(leaf[i] == '.');
        } else {
            assert(leaf[i] == sanitized(extension)[i - 37]);
        }
    }
}

/// Two files that different tokens name lie at different paths of one
/// directory, whatever follows the tokens in their names.
pub proof fn lemma_distinct_tokens_distinct_paths(
    dir: Seq<char>,
    first: Seq<char>,
    first_leaf: Seq<char>,
    second: Seq<char>,
    second_leaf: Seq<char>,
)
    requires
        is_safe_leaf(first, first_leaf),
        is_safe_leaf(second, second_leaf),
        first != second,
    ensures
        first_leaf != second_leaf,
        path_in(dir, first_leaf) != path_in(dir, second_leaf),
{
    if path_in(dir, first_leaf) == path_in(dir, second_leaf) {
        let start: int = dir.len() as int + 1;
        assert(path_in(dir, first_leaf).subrange(start, start + first_leaf.len()) =~= first_leaf);
        assert(path_in(dir, second_leaf).subrange(start, start + second_leaf.len())
            =~= second_leaf);
        assert(path_in(dir, first_leaf).len() == start + first_leaf.len());
        assert(first_leaf == second_leaf);
    }
}

/// A file that a safe name places lies directly in the directory: behind the
/// directory and one separator, its path holds no further separator.
pub proof fn lemma_safe_leaf_stays_in_dir(dir: Seq<char>, token: Seq<char>, leaf: Seq<char>)
    requires
        is_safe_leaf(token, leaf),
    ensures
        path_in(dir, leaf).len() == dir.len() + 1 + leaf.len(),
        path_in(dir, leaf).subrange(0, dir.len() as int) == dir,
        path_in(dir, leaf)[dir.len() as int] == '/',
        forall|i: int|
            dir.len() < i < path_in(dir, leaf).len() ==> !is_separator(
                #[trigger] path_in(dir, leaf)[i],
            ),
{
    let path = path_in(dir, leaf);
    assert(path.subrange(0, dir.len() as int) =~= dir);
    assert forall|i: int| dir.len() < i < path.len() implies !is_separator(#[trigger] path[i]) by {
        assert(path[i] == leaf[i - dir.len() - 1]);
    }
}

} // verus!

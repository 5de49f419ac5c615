//! Identity derivation: from a free-form email address to a canonical
//! login username and a display full name.
//!
//! Only the local part (before the first `@`) is used, lowercased. The
//! username is the first character of the first `.`-token followed by a
//! surname fragment built from the remaining tokens: tokens of length
//! one or less and tokens containing "contractor" are dropped whole,
//! hyphens are removed, and the token "ki" is normalized to "k" as a
//! fixed lexical correction. The full name instead strips the substring
//! "contractor" from the whole local part before splitting, then
//! capitalizes each token and joins them with single spaces.

use vstd::prelude::*;
use vstd::string::StrSliceExecFns;

use crate::AppError;
use crate::text::{
    chars_of, contains_seq, contains_sub, find_char, replace_seq, replace_sub, split_chars,
    split_on, string_of, extend_chars, join_with, lemma_join_push, lemma_split_len,
};

verus! {

/// What str::to_lowercase returns for a string with these characters.
pub uninterp spec fn lower_of(s: Seq<char>) -> Seq<char>;

/// Relies on str::to_lowercase: the Unicode lowercase mapping of a
/// string depends on its characters alone.
#[verifier::external_body]
fn lowercase(s: &str) -> (r: String)
    ensures
        r@ == lower_of(s@),
{
    s.to_lowercase()
}

/// What char::to_uppercase yields, in order, for this character.
pub uninterp spec fn upper_of(c: char) -> Seq<char>;

/// Relies on char::to_uppercase: the Unicode uppercase mapping of a
/// character depends on that character alone.
#[verifier::external_body]
fn char_upper(c: char) -> (r: String)
    ensures
        r@ == upper_of(c),
{
    c.to_uppercase().collect()
}

/// A derived identity: the canonical login username and the display
/// full name for one email address.
#[derive(Clone, Debug)]
pub struct Identity {
    pub username: String,
    pub full_name: String,
}

/// The mathematical content of an `Identity`.
pub struct IdentityModel {
    pub username: Seq<char>,
    pub full_name: Seq<char>,
}

impl View for Identity {
    type V = IdentityModel;

    open spec fn view(&self) -> IdentityModel {
        IdentityModel { username: self.username@, full_name: self.full_name@ }
    }
}

/// The address has an `@`, so it has a (possibly empty) local part.
pub open spec fn has_at(email: Seq<char>) -> bool {
    exists|i: int| 0 <= i < email.len() && email[i] == '@'
}

/// The prefix of the address before its first `@`; the whole address
/// when there is no `@`.
pub open spec fn local_part(email: Seq<char>) -> Seq<char>
    decreases email.len(),
{
    if email.len() == 0 {
        Seq::empty()
    } else if email[0] == '@' {
        Seq::empty()
    } else {
        seq![email[0]] + local_part(email.skip(1))
    }
}

proof fn lemma_local_part_prefix(email: Seq<char>, i: int)
    requires
        0 <= i <= email.len(),
        forall|j: int| 0 <= j < i ==> email[j] != '@',
        i == email.len() || email[i] == '@',
    ensures
        local_part(email) == email.take(i),
    decreases i,
{
    if i == 0 {
        assert(email.take(0) =~= Seq::<char>::empty());
    } else {
        assert(email[0] != '@');
        lemma_local_part_prefix(email.skip(1), i - 1);
        assert(seq![email[0]] + email.skip(1).take(i - 1) =~= email.take(i));
    }
}

/// A token with its hyphen characters removed.
pub open spec fn strip_hyphens(t: Seq<char>) -> Seq<char> {
    replace_seq(t, "-"@, Seq::empty())
}

/// What one non-first token of the local part contributes to the
/// username: nothing when the token is a single character or shorter,
/// or contains "contractor"; otherwise the token with hyphens removed,
/// with the fixed correction of "ki" to "k".
pub open spec fn token_contrib(t: Seq<char>) -> Seq<char> {
    if t.len() <= 1 {
        Seq::empty()
    } else if contains_seq(t, "contractor"@) {
        Seq::empty()
    } else if strip_hyphens(t) == "ki"@ {
        "k"@
    } else {
        strip_hyphens(t)
    }
}

/// The surname fragment: the contributions of the given tokens,
/// concatenated in order with no separator.
pub open spec fn surname_fragment(toks: Seq<Seq<char>>) -> Seq<char>
    decreases toks.len(),
{
    if toks.len() == 0 {
        Seq::empty()
    } else {
        token_contrib(toks[0]) + surname_fragment(toks.skip(1))
    }
}

proof fn lemma_fragment_push(toks: Seq<Seq<char>>, t: Seq<char>)
    ensures
        surname_fragment(toks.push(t)) == surname_fragment(toks) + token_contrib(t),
    decreases toks.len(),
{
    if toks.len() == 0 {
        assert(toks.push(t)[0] == t);
        assert(toks.push(t).skip(1) =~= Seq::<Seq<char>>::empty());
        assert(surname_fragment(Seq::<Seq<char>>::empty()) == Seq::<char>::empty());
        assert(toks =~= Seq::<Seq<char>>::empty());
        assert(token_contrib(t) + Seq::<char>::empty() =~= token_contrib(t));
        assert(Seq::<char>::empty() + token_contrib(t) =~= token_contrib(t));
    } else {
        lemma_fragment_push(toks.skip(1), t);
        assert(toks.push(t).skip(1) =~= toks.skip(1).push(t));
        assert(toks.push(t)[0] == toks[0]);
        assert(token_contrib(toks[0]) + (surname_fragment(toks.skip(1)) + token_contrib(t)) =~= (
        token_contrib(toks[0]) + surname_fragment(toks.skip(1))) + token_contrib(t));
    }
}

/// The username derived from the lowercased local part: the first
/// character of the first token, then the surname fragment of the
/// remaining tokens.
pub open spec fn username_of_lower(lower: Seq<char>) -> Seq<char> {
    let toks = split_on(lower, '.');
    seq![toks[0][0]] + surname_fragment(toks.skip(1))
}

/// A token with its first character replaced by that character's
/// uppercase mapping.
pub open spec fn capitalize(t: Seq<char>) -> Seq<char> {
    if t.len() == 0 {
        Seq::empty()
    } else {
        upper_of(t[0]) + t.skip(1)
    }
}

/// Every token capitalized.
pub open spec fn cap_tokens(toks: Seq<Seq<char>>) -> Seq<Seq<char>> {
    toks.map_values(|t: Seq<char>| capitalize(t))
}

/// The full name derived from the lowercased local part: the substring
/// "contractor" removed from the whole local part, which is then split
/// on `.`, each token capitalized, and the tokens joined with single
/// spaces. Empty tokens are kept, so consecutive or trailing dots leave
/// extra spaces.
pub open spec fn fullname_of_lower(lower: Seq<char>) -> Seq<char> {
    join_with(cap_tokens(split_on(replace_seq(lower, "contractor"@, Seq::empty()), '.')), ' ')
}

/// The address yields an identity: it has an `@` and the first token of
/// its lowercased local part is nonempty.
pub open spec fn derive_ok(email: Seq<char>) -> bool {
    has_at(email) && split_on(lower_of(local_part(email)), '.')[0].len() > 0
}

/// Which error a failing address gets: no `@` means there is no local
/// part at all; otherwise the local part yields no name material.
pub open spec fn derive_err(email: Seq<char>) -> AppError {
    if !has_at(email) {
        AppError::MalformedAddress
    } else {
        AppError::EmptyLocalPart
    }
}

/// The username derived from the whole address.
pub open spec fn username_spec(email: Seq<char>) -> Seq<char> {
    username_of_lower(lower_of(local_part(email)))
}

/// The full name derived from the whole address.
pub open spec fn fullname_spec(email: Seq<char>) -> Seq<char> {
    fullname_of_lower(lower_of(local_part(email)))
}

/// The complete derivation: identity on success, the classified error
/// otherwise.
pub open spec fn spec_derive(email: Seq<char>) -> Result<IdentityModel, AppError> {
    if derive_ok(email) {
        Ok(IdentityModel { username: username_spec(email), full_name: fullname_spec(email) })
    } else {
        Err(derive_err(email))
    }
}

/// Whether two character vectors hold the same characters.
fn chars_eq(a: &Vec<char>, b: &Vec<char>) -> (r: bool)
    ensures
        r == (a@ == b@),
{
    if a.len() != b.len() {
        return false;
    }
    let n = a.len();
    let mut i: usize = 0;
    while i < n
        invariant
            n == a@.len() == b@.len(),
            i <= n,
            forall|j: int| 0 <= j < i ==> a@[j] == b@[j],
        decreases n - i,
    {
        if a[i] != b[i] {
            return false;
        }
        i = i + 1;
    }
    proof {
        assert(a@ =~= b@);
    }
    true
}

/// The contribution of one non-first token to the username.
fn token_contrib_exec(t: &Vec<char>) -> (r: Vec<char>)
    ensures
        r@ == token_contrib(t@),
{
    let contractor = chars_of("contractor");
    proof {
        reveal_strlit("contractor");
    }
    if t.len() <= 1 {
        Vec::new()
    } else if contains_sub(t, &contractor) {
        Vec::new()
    } else {
        let hyphen = chars_of("-");
        proof {
            reveal_strlit("-");
        }
        let empty: Vec<char> = Vec::new();
        let stripped = replace_sub(t, &hyphen, &empty);
        let ki = chars_of("ki");
        if chars_eq(&stripped, &ki) {
            chars_of("k")
        } else {
            stripped
        }
    }
}

/// The username built from the lowercased local part's tokens.
fn username_from_tokens(toks: &Vec<Vec<char>>) -> (r: Vec<char>)
    requires
        toks@.len() >= 1,
        toks@[0]@.len() >= 1,
    ensures
        r@ == seq![toks@[0]@[0]] + surname_fragment(toks@.map_values(|t: Vec<char>| t@).skip(1)),
{
    let ghost model = toks@.map_values(|t: Vec<char>| t@);
    let mut out: Vec<char> = Vec::new();
    out.push(toks[0][0]);
    let n = toks.len();
    let mut i: usize = 1;
    proof {
        assert(model.subrange(1, 1) =~= Seq::<Seq<char>>::empty());
        assert(out@ =~= seq![model[0][0]] + surname_fragment(model.subrange(1, 1)));
    }
    while i < n
        invariant
            n == toks@.len(),
            1 <= i <= n,
            model == toks@.map_values(|t: Vec<char>| t@),
            model.len() == n,
            out@ == seq![model[0][0]] + surname_fragment(model.subrange(1, i as int)),
        decreases n - i,
    {
        let piece = token_contrib_exec(&toks[i]);
        proof {
            lemma_fragment_push(model.subrange(1, i as int), model[i as int]);
            assert(model.subrange(1, i as int).push(model[i as int]) =~= model.subrange(
                1,
                i + 1,
            ));
            assert((seq![model[0][0]] + surname_fragment(model.subrange(1, i as int))) + piece@
                =~= seq![model[0][0]] + (surname_fragment(model.subrange(1, i as int))
            + piece@));
        }
        extend_chars(&mut out, &piece);
        i = i + 1;
    }
    proof {
        assert(model.subrange(1, n as int) =~= model.skip(1));
    }
    out
}

/// A token with its first character uppercased.
fn capitalize_chars(t: &Vec<char>) -> (r: Vec<char>)
    ensures
        r@ == capitalize(t@),
{
    if t.len() == 0 {
        Vec::new()
    } else {
        let up = char_upper(t[0]);
        let mut r = chars_of(up.as_str());
        let n = t.len();
        let mut j: usize = 1;
        proof {
            assert(t@.subrange(1, 1) =~= Seq::<char>::empty());
            assert(r@ + t@.subrange(1, 1) =~= r@);
        }
        while j < n
            invariant
                n == t@.len(),
                1 <= j <= n,
                r@ == upper_of(t@[0]) + t@.subrange(1, j as int),
            decreases n - j,
        {
            r.push(t[j]);
            j = j + 1;
            proof {
                assert((upper_of(t@[0]) + t@.subrange(1, j - 1)).push(t@[j - 1]) =~= upper_of(
                    t@[0],
                ) + t@.subrange(1, j as int));
            }
        }
        proof {
            assert(t@.subrange(1, n as int) =~= t@.skip(1));
        }
        r
    }
}

/// Capitalizes the first character of a string, leaving the remainder
/// unchanged.
pub fn uppercase_first_letter(s: &str) -> (r: String)
    ensures
        r@ == capitalize(s@),
{
    let v = chars_of(s);
    let c = capitalize_chars(&v);
    string_of(&c)
}

/// The full name built from the lowercased local part.
fn fullname_from_lower(lv: &Vec<char>) -> (r: Vec<char>)
    ensures
        r@ == fullname_of_lower(lv@),
{
    let contractor = chars_of("contractor");
    proof {
        reveal_strlit("contractor");
    }
    let empty: Vec<char> = Vec::new();
    let stripped = replace_sub(lv, &contractor, &empty);
    let toks = split_chars(&stripped, '.');
    let ghost caps = cap_tokens(split_on(stripped@, '.'));
    let mut out: Vec<char> = Vec::new();
    let n = toks.len();
    proof {
        lemma_split_len(stripped@, '.');
        assert(caps.take(0) =~= Seq::<Seq<char>>::empty());
    }
    let mut i: usize = 0;
    while i < n
        invariant
            n == toks@.len(),
            i <= n,
            caps == cap_tokens(split_on(stripped@, '.')),
            caps.len() == n,
            forall|j: int| 0 <= j < n ==> toks@[j]@ == split_on(stripped@, '.')[j],
            out@ == join_with(caps.take(i as int), ' '),
        decreases n - i,
    {
        let cap = capitalize_chars(&toks[i]);
        proof {
            assert(cap@ == caps[i as int]);
            lemma_join_push(caps.take(i as int), ' ', caps[i as int]);
            assert(caps.take(i as int).push(caps[i as int]) =~= caps.take(i + 1));
        }
        if i > 0 {
            out.push(' ');
            proof {
                assert((join_with(caps.take(i as int), ' ') + seq![' ']) + cap@ =~= join_with(
                    caps.take(i as int),
                    ' ',
                ) + seq![' '] + cap@);
            }
        }
        extend_chars(&mut out, &cap);
        i = i + 1;
    }
    proof {
        assert(caps.take(n as int) =~= caps);
    }
    out
}

/// Derives the identity for an email address: username and full name,
/// or the classified error. `MalformedAddress` if and only if the
/// address has no `@`; `EmptyLocalPart` if and only if it has one but
/// the first token of its lowercased local part is empty.
pub fn derive(email: &str) -> (r: Result<Identity, AppError>)
    ensures
        match r {
            Ok(id) => spec_derive(email@) == Ok::<IdentityModel, AppError>(id@),
            Err(e) => spec_derive(email@) == Err::<IdentityModel, AppError>(e),
        },
{
    let ev = chars_of(email);
    match find_char(&ev, '@') {
        None => {
            proof {
                assert(!has_at(email@));
            }
            Err(AppError::MalformedAddress)
        },
        Some(at) => {
            proof {
                assert(has_at(email@));
                lemma_local_part_prefix(email@, at as int);
            }
            let local = email.substring_char(0, at);
            let lower = lowercase(local);
            let lv = chars_of(lower.as_str());
            let toks = split_chars(&lv, '.');
            proof {
                lemma_split_len(lv@, '.');
            }
            if toks[0].len() == 0 {
                proof {
                    assert(!derive_ok(email@));
                }
                Err(AppError::EmptyLocalPart)
            } else {
                let uname = username_from_tokens(&toks);
                let fname = fullname_from_lower(&lv);
                proof {
                    let model = toks@.map_values(|t: Vec<char>| t@);
                    assert(model =~= split_on(lv@, '.'));
                }
                Ok(
                    Identity {
                        username: string_of(&uname),
                        full_name: string_of(&fname),
                    },
                )
            }
        },
    }
}

/// The username alone, with the same success and failure conditions as
/// the full derivation.
pub fn username(email: &str) -> (r: Result<String, AppError>)
    ensures
        match r {
            Ok(u) => derive_ok(email@) && u@ == username_spec(email@),
            Err(e) => !derive_ok(email@) && e == derive_err(email@),
        },
{
    match derive(email) {
        Ok(id) => Ok(id.username),
        Err(e) => Err(e),
    }
}

/// The full name alone, with the same success and failure conditions as
/// the full derivation.
pub fn fullname(email: &str) -> (r: Result<String, AppError>)
    ensures
        match r {
            Ok(f) => derive_ok(email@) && f@ == fullname_spec(email@),
            Err(e) => !derive_ok(email@) && e == derive_err(email@),
        },
{
    match derive(email) {
        Ok(id) => Ok(id.full_name),
        Err(e) => Err(e),
    }
}

/// The concatenation of the given tokens with hyphens removed, in
/// order, with no separator.
pub open spec fn concat_hyphen_stripped(toks: Seq<Seq<char>>) -> Seq<char>
    decreases toks.len(),
{
    if toks.len() == 0 {
        Seq::empty()
    } else {
        strip_hyphens(toks[0]) + concat_hyphen_stripped(toks.skip(1))
    }
}

proof fn lemma_fragment_plain(toks: Seq<Seq<char>>)
    requires
        forall|i: int| 0 <= i < toks.len() ==> (#[trigger] toks[i]).len() > 1,
        forall|i: int| 0 <= i < toks.len() ==> !contains_seq(#[trigger] toks[i], "contractor"@),
        forall|i: int| 0 <= i < toks.len() ==> strip_hyphens(#[trigger] toks[i]) != "ki"@,
    ensures
        surname_fragment(toks) == concat_hyphen_stripped(toks),
    decreases toks.len(),
{
    if toks.len() == 0 {
    } else {
        assert(toks[0].len() > 1);
        lemma_fragment_plain(toks.skip(1));
    }
}

/// The plain-token law of the username: when the lowercased local part
/// has at least two tokens, its first token is nonempty, and every
/// later token is longer than one character, contains no "contractor"
/// and does not reduce to "ki", the username is exactly the first
/// character of the first token followed by the remaining tokens with
/// their hyphens removed, concatenated in order.
pub proof fn lemma_username_plain_tokens(lower: Seq<char>)
    requires
        split_on(lower, '.').len() >= 2,
        split_on(lower, '.')[0].len() > 0,
        forall|i: int|
            1 <= i < split_on(lower, '.').len() ==> (#[trigger] split_on(lower, '.')[i]).len() > 1,
        forall|i: int|
            1 <= i < split_on(lower, '.').len() ==> !contains_seq(
                #[trigger] split_on(lower, '.')[i],
                "contractor"@,
            ),
        forall|i: int|
            1 <= i < split_on(lower, '.').len() ==> strip_hyphens(
                #[trigger] split_on(lower, '.')[i],
            ) != "ki"@,
    ensures
        username_of_lower(lower) == seq![split_on(lower, '.')[0][0]] + concat_hyphen_stripped(
            split_on(lower, '.').skip(1),
        ),
{
    let toks = split_on(lower, '.');
    assert forall|i: int| 0 <= i < toks.skip(1).len() implies (#[trigger] toks.skip(1)[i]).len()
        > 1 && !contains_seq(toks.skip(1)[i], "contractor"@) && strip_hyphens(toks.skip(1)[i])
        != "ki"@ by {
        assert(toks.skip(1)[i] == toks[i + 1]);
    }
    lemma_fragment_plain(toks.skip(1));
}

/// Deriving from the same address twice yields the identical result:
/// the derivation is a function of the address alone, with no hidden
/// state.
pub proof fn lemma_derive_deterministic(
    email: Seq<char>,
    r1: Result<IdentityModel, AppError>,
    r2: Result<IdentityModel, AppError>,
)
    requires
        r1 == spec_derive(email),
        r2 == spec_derive(email),
    ensures
        r1 == r2,
{
}

} // verus!

//! The account check: HTTP Basic credentials, as they come in a request
//! header or in the query of an upgrade request.

use crate::models::AppState;
use crate::text::chars_of;
use base64::Engine;
use vstd::prelude::*;
use vstd::utf8::{decode_utf8, valid_utf8};

verus! {

/// What the standard base64 alphabet, with padding, decodes `input` to;
/// `None` where `input` is not such an encoding.
pub uninterp spec fn base64_decoded(input: Seq<char>) -> Option<Seq<u8>>;

/// `decode` of `base64::engine::general_purpose::STANDARD`. Trusted: the
/// bytes it returns, or its refusal, are named [`base64_decoded`]; nothing
/// more is claimed of them than that equal inputs decode alike.
#[verifier::external_body]
fn decode_base64(input: &str) -> (r: Option<Vec<u8>>)
    ensures
        match r {
            Some(bytes) => base64_decoded(input@) == Some(bytes@),
            None => base64_decoded(input@) is None,
        },
{
    base64::engine::general_purpose::STANDARD.decode(input).ok()
}

/// `String::from_utf8` of the standard library. Trusted: it accepts exactly
/// the byte strings that are valid UTF-8, and the string it returns holds
/// the characters that they encode.
#[verifier::external_body]
fn utf8_text(bytes: Vec<u8>) -> (r: Option<String>)
    ensures
        match r {
            Some(text) => valid_utf8(bytes@) && text@ == decode_utf8(bytes@),
            None => !valid_utf8(bytes@),
        },
{
    String::from_utf8(bytes).ok()
}

/// The user name and the password in `text`: what stands before its first
/// colon, and what stands after it. `None` where `text` has no colon.
pub open spec fn credentials(text: Seq<char>) -> Option<(Seq<char>, Seq<char>)> {
    match text.index_of_first(':') {
        Some(i) => Some((text.subrange(0, i), text.subrange(i + 1, text.len() as int))),
        None => None,
    }
}

/// Whether the decoded bytes of a credential are those of the account
/// `user` with the password `pass`: they are valid UTF-8, hold a colon, and
/// spell `user` before the first colon and `pass` after it.
pub open spec fn accepts(decoded: Option<Seq<u8>>, user: Seq<char>, pass: Seq<char>) -> bool {
    match decoded {
        Some(bytes) => valid_utf8(bytes) && credentials(decode_utf8(bytes)) == Some((user, pass)),
        None => false,
    }
}

/// Whether `text`, from `from` on, spells `word` and then ends.
fn spells(text: &Vec<char>, from: usize, word: &Vec<char>) -> (r: bool)
    requires
        from <= text.len(),
    ensures
        r == (text@.subrange(from as int, text.len() as int) == word@),
{
    if text.len() - from != word.len() {
        return false;
    }
    let mut i: usize = 0;
    while i < word.len()
        invariant
            i <= word.len(),
            from <= text.len(),
            text.len() - from == word.len(),
            forall|j: int| 0 <= j < i ==> text@[from + j] == word@[j],
        decreases word.len() - i,
    {
        if text[from + i] != word[i] {
            assert(text@.subrange(from as int, text.len() as int)[i as int] != word@[i as int]);
            return false;
        }
        i += 1;
    }
    assert(text@.subrange(from as int, text.len() as int) =~= word@);
    true
}

/// Whether `text` spells `word` up to `to`, where it goes on.
fn begins(text: &Vec<char>, to: usize, word: &Vec<char>) -> (r: bool)
    requires
        to <= text.len(),
    ensures
        r == (text@.subrange(0, to as int) == word@),
{
    if to != word.len() {
        return false;
    }
    let mut i: usize = 0;
    while i < word.len()
        invariant
            i <= word.len(),
            to == word.len(),
            to <= text.len(),
            forall|j: int| 0 <= j < i ==> text@[j] == word@[j],
        decreases word.len() - i,
    {
        if text[i] != word[i] {
            assert(text@.subrange(0, to as int)[i as int] != word@[i as int]);
            return false;
        }
        i += 1;
    }
    assert(text@.subrange(0, to as int) =~= word@);
    true
}

/// Whether `text` is `user`, a colon, and `pass`, where `user` holds no
/// colon of its own.
fn names_account(text: &Vec<char>, user: &Vec<char>, pass: &Vec<char>) -> (r: bool)
    ensures
        r == (credentials(text@) == Some((user@, pass@))),
{
    let mut i: usize = 0;
    while i < text.len() && text[i] != ':'
        invariant
            i <= text.len(),
            forall|j: int| 0 <= j < i ==> text@[j] != ':',
        decreases text.len() - i,
    {
        i += 1;
    }
    proof {
        text@.index_of_first_ensures(':');
    }
    if i == text.len() {
        assert(!text@.contains(':'));
        false
    } else {
        assert(text@.index_of_first(':') == Some(i as int)) by {
            let k = text@.index_of_first(':')->0;
            assert(text@.contains(':'));
            if k < i {
                assert(text@[k] != ':');
            } else if i < k {
                assert(text@[i as int] == ':');
            }
        }
        begins(text, i, user) && spells(text, i + 1, pass)
    }
}

/// Whether the bytes that a credential decoded to, if it did decode, are
/// those of the account `user` with the password `pass`.
pub fn credentials_accepted(decoded: Option<Vec<u8>>, user: &str, pass: &str) -> (r: bool)
    ensures
        r == accepts(
            match decoded {
                Some(bytes) => Some(bytes@),
                None => None,
            },
            user@,
            pass@,
        ),
{
    match decoded {
        None => false,
        Some(bytes) => match utf8_text(bytes) {
            None => false,
            Some(text) => {
                let text = chars_of(text.as_str());
                let user = chars_of(user);
                let pass = chars_of(pass);
                names_account(&text, &user, &pass)
            },
        },
    }
}

/// Checks `auth`, the base64 form of `user:password`, against the expected
/// account. The answer is always `Some`: whether the credential is that of
/// the account. A credential that does not decode, is not text, or has no
/// colon is not.
pub fn validate_auth(auth: &str, expected_user: &str, expected_pass: &str) -> (r: Option<bool>)
    ensures
        r == Some(accepts(base64_decoded(auth@), expected_user@, expected_pass@)),
{
    Some(credentials_accepted(decode_base64(auth), expected_user, expected_pass))
}

/// The word that opens a Basic credential in a header, with its space.
pub open spec fn scheme() -> Seq<char> {
    seq!['B', 'a', 's', 'i', 'c', ' ']
}

/// `header` without the scheme word in front of it, as often as it stands
/// there.
pub open spec fn without_scheme(header: Seq<char>) -> Seq<char>
    decreases header.len(),
{
    if scheme().is_prefix_of(header) {
        without_scheme(header.skip(6))
    } else {
        header
    }
}

/// Whether a request with the authorization header `header` comes from the
/// account `user` with the password `pass`: the header is there, opens with
/// the scheme word, and what follows is the base64 form of `user:pass`.
pub open spec fn authorized(header: Option<Seq<char>>, user: Seq<char>, pass: Seq<char>) -> bool {
    match header {
        Some(h) => scheme().is_prefix_of(h) && accepts(
            base64_decoded(without_scheme(h)),
            user,
            pass,
        ),
        None => false,
    }
}

/// What to do with a request, going by its credentials.
#[derive(Clone, Copy, Debug, PartialEq, Eq, Structural)]
pub enum AuthDecision {
    /// The request comes from the account: let it through.
    Granted,
    /// Answer 401. `challenge` says whether to ask for Basic credentials in
    /// the answer: only a request that brought no authorization header is
    /// asked, so that a browser does not open its own dialog after a wrong
    /// password.
    Denied { challenge: bool },
}

/// Whether `text` opens with the scheme word at `from`.
fn scheme_at(text: &Vec<char>, from: usize) -> (r: bool)
    requires
        from <= text.len(),
    ensures
        r == scheme().is_prefix_of(text@.skip(from as int)),
{
    if text.len() - from < 6 {
        return false;
    }
    let r = text[from] == 'B' && text[from + 1] == 'a' && text[from + 2] == 's' && text[from + 3]
        == 'i' && text[from + 4] == 'c' && text[from + 5] == ' ';
    proof {
        if r {
            assert(scheme() =~= text@.skip(from as int).subrange(0, 6));
        } else if scheme().is_prefix_of(text@.skip(from as int)) {
            assert(scheme() == text@.skip(from as int).subrange(0, 6));
            assert(scheme()[0] == text@[from + 0]);
            assert(scheme()[1] == text@[from + 1]);
            assert(scheme()[2] == text@[from + 2]);
            assert(scheme()[3] == text@[from + 3]);
            assert(scheme()[4] == text@[from + 4]);
            assert(scheme()[5] == text@[from + 5]);
        }
    }
    r
}

/// Decides on a request by its authorization header (`None` where the
/// request has none, or one that is not text).
pub fn auth_middleware(state: &AppState, header: Option<&str>) -> (decision: AuthDecision)
    ensures
        decision == (if authorized(
            match header {
                Some(h) => Some(h@),
                None => None,
            },
            state.username@,
            state.password@,
        ) {
            AuthDecision::Granted
        } else {
            AuthDecision::Denied { challenge: header is None }
        }),
{
    match header {
        None => AuthDecision::Denied { challenge: true },
        Some(h) => {
            let text = chars_of(h);
            assert(text@.skip(0) =~= text@);
            if !scheme_at(&text, 0) {
                return AuthDecision::Denied { challenge: false };
            }
            let mut from: usize = 0;
            while scheme_at(&text, from)
                invariant
                    from <= text.len(),
                    without_scheme(text@) == without_scheme(text@.skip(from as int)),
                decreases text.len() - from,
            {
                proof {
                    assert(text@.skip(from as int).skip(6) =~= text@.skip(from + 6));
                }
                from += 6;
            }
            let mut rest = String::new();
            let mut i: usize = from;
            while i < text.len()
                invariant
                    from <= i <= text.len(),
                    rest@ == text@.subrange(from as int, i as int),
                decreases text.len() - i,
            {
                rest.push(text[i]);
                i += 1;
            }
            assert(rest@ =~= text@.skip(from as int));
            if credentials_accepted(
                decode_base64(rest.as_str()),
                state.username.as_str(),
                state.password.as_str(),
            ) {
                AuthDecision::Granted
            } else {
                AuthDecision::Denied { challenge: false }
            }
        },
    }
}

} // verus!

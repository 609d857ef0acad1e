//! Submitting the creation form.

use rand::{Rng, SeedableRng};
use vstd::prelude::*;
use vstd::string::*;

use super::FormValues;
use crate::api_client::CreateEntryApiResponse;
use crate::state::{Approval, LinkModel, State};
use crate::util::flash::Alert;
use crate::state::bcrypt_verdict;
use crate::util::text::concat3;

verus! {

/// The fields of the creation form as submitted.
#[derive(Debug)]
pub struct FormData {
    pub shortname: String,
    pub longurl: String,
    pub password: String,
}

impl<'a> From<&'a FormData> for FormValues {
    fn from(value: &'a FormData) -> (v: FormValues) {
        FormValues {
            shortname: value.shortname.clone(),
            longurl: value.longurl.clone(),
            shortname_is_disabled: false,
        }
    }
}

impl<'a> vstd::std_specs::convert::FromSpecImpl<&'a FormData> for FormValues {
    open spec fn obeys_from_spec() -> bool {
        true
    }

    open spec fn from_spec(value: &'a FormData) -> FormValues {
        FormValues {
            shortname: value.shortname,
            longurl: value.longurl,
            shortname_is_disabled: false,
        }
    }
}

/// How many characters a generated shortname has.
pub const GENERATED_SHORTNAME_LENGTH: usize = 6;

pub open spec fn is_ascii_alphanumeric(b: u8) -> bool {
    (48 <= b <= 57) || (65 <= b <= 90) || (97 <= b <= 122)
}

/// The lower-case letter or digit that the ASCII letter or digit `b` stands for.
pub open spec fn lowercase_char(b: u8) -> char {
    if 65 <= b <= 90 {
        ((b + 32) as u8) as char
    } else {
        b as char
    }
}

pub open spec fn is_lowercase_alphanumeric(c: char) -> bool {
    ('a' <= c <= 'z') || ('0' <= c <= '9')
}

#[verifier::external_type_specification]
#[verifier::external_body]
pub struct ExStdRng(rand::rngs::StdRng);

#[verifier::external_type_specification]
#[verifier::external_body]
pub struct ExRandError(rand::Error);

/// Calls `rand::rngs::StdRng::from_rng(rand::rngs::OsRng)`: a generator
/// seeded from the operating system's randomness. It fails when that
/// randomness cannot be had; which seed it draws is left to chance.
#[verifier::external_body]
fn seeded_rng() -> (r: Result<rand::rngs::StdRng, rand::Error>) {
    rand::rngs::StdRng::from_rng(rand::rngs::OsRng)
}

/// Calls `rng.sample(rand::distributions::Alphanumeric)`, which draws one
/// byte uniformly from the ASCII letters and digits. Which one it draws is
/// left to chance.
#[verifier::external_body]
fn sample_alphanumeric(rng: &mut rand::rngs::StdRng) -> (b: u8)
    ensures
        is_ascii_alphanumeric(b),
{
    rng.sample(rand::distributions::Alphanumeric)
}

/// No randomness could be had to draw a shortname.
#[derive(Clone, Copy, Debug, PartialEq, Eq, Structural)]
pub enum RandomnessError {
    Unavailable,
}

/// Calls `String::push`.
#[verifier::external_body]
fn push_char(s: &mut String, c: char)
    ensures
        final(s)@ == old(s)@.push(c),
{
    s.push(c)
}

/// The shortname spelled by the ASCII letters and digits `bytes`, in lower case.
pub fn shortname_from_bytes(bytes: &Vec<u8>) -> (s: String)
    requires
        forall|i: int| 0 <= i < bytes@.len() ==> is_ascii_alphanumeric(#[trigger] bytes@[i]),
    ensures
        s@ == bytes@.map_values(|b: u8| lowercase_char(b)),
        forall|i: int| 0 <= i < s@.len() ==> is_lowercase_alphanumeric(#[trigger] s@[i]),
{
    let mut s = String::new();
    let mut i: usize = 0;
    while i < bytes.len()
        invariant
            i <= bytes.len(),
            forall|j: int| 0 <= j < bytes@.len() ==> is_ascii_alphanumeric(#[trigger] bytes@[j]),
            s@ == bytes@.take(i as int).map_values(|b: u8| lowercase_char(b)),
        decreases bytes.len() - i,
    {
        let b = bytes[i];
        let lower: u8 = if 65 <= b && b <= 90 { b + 32 } else { b };
        push_char(&mut s, lower as char);
        proof {
            assert(bytes@.take(i + 1) =~= bytes@.take(i as int).push(b));
        }
        i += 1;
    }
    proof {
        assert(bytes@.take(bytes@.len() as int) =~= bytes@);
        assert forall|i: int| 0 <= i < s@.len() implies is_lowercase_alphanumeric(#[trigger] s@[i]) by {
            assert(is_ascii_alphanumeric(bytes@[i]));
            let b = bytes@[i];
            if 65 <= b <= 90 {
                assert(((b + 32) as u8) as char == lowercase_char(b));
            }
        }
    }
    s
}

/// A freshly drawn shortname: six lower-case ASCII letters or digits. It
/// fails only when the operating system gives no randomness.
pub fn random_shortname() -> (r: Result<String, RandomnessError>)
    ensures
        r matches Ok(s) ==> s@.len() == GENERATED_SHORTNAME_LENGTH && forall|i: int|
            0 <= i < s@.len() ==> is_lowercase_alphanumeric(#[trigger] s@[i]),
        r matches Ok(s) ==> exists|drawn: Seq<u8>|
            drawn.len() == GENERATED_SHORTNAME_LENGTH && (forall|i: int|
                0 <= i < drawn.len() ==> is_ascii_alphanumeric(#[trigger] drawn[i])) && s@ == drawn.map_values(
                |b: u8| lowercase_char(b),
            ),
{
    let mut rng = match seeded_rng() {
        Ok(rng) => rng,
        Err(_) => return Err(RandomnessError::Unavailable),
    };
    let mut bytes: Vec<u8> = Vec::new();
    let mut i: usize = 0;
    while i < GENERATED_SHORTNAME_LENGTH
        invariant
            i <= GENERATED_SHORTNAME_LENGTH,
            bytes@.len() == i,
            forall|j: int| 0 <= j < bytes@.len() ==> is_ascii_alphanumeric(#[trigger] bytes@[j]),
        decreases GENERATED_SHORTNAME_LENGTH - i,
    {
        bytes.push(sample_alphanumeric(&mut rng));
        i += 1;
    }
    let s = shortname_from_bytes(&bytes);
    proof {
        assert(bytes@.len() == GENERATED_SHORTNAME_LENGTH);
        assert(s@ == bytes@.map_values(|b: u8| lowercase_char(b)));
    }
    Ok(s)
}

impl FormData {
    /// The form with `generated` as its shortname when it was submitted
    /// without one; a form with a shortname is kept as it is.
    pub fn fill_shortname(self, generated: String) -> (r: FormData)
        ensures
            self.shortname@.len() == 0 ==> r == (FormData { shortname: generated, ..self }),
            self.shortname@.len() != 0 ==> r == self,
    {
        if self.shortname.as_str().is_empty() {
            FormData { shortname: generated, ..self }
        } else {
            self
        }
    }

    /// The form, given a freshly drawn shortname when it was submitted
    /// without one. It fails only when a shortname has to be drawn and the
    /// operating system gives no randomness.
    pub fn with_shortname(self) -> (r: Result<FormData, RandomnessError>)
        ensures
            self.shortname@.len() != 0 ==> r is Ok,
            r matches Ok(f) ==> {
                &&& f.longurl == self.longurl
                &&& f.password == self.password
                &&& self.shortname@.len() != 0 ==> f.shortname == self.shortname
                &&& self.shortname@.len() == 0 ==> f.shortname@.len() == GENERATED_SHORTNAME_LENGTH
                    && forall|i: int| 0 <= i < f.shortname@.len() ==> is_lowercase_alphanumeric(#[trigger] f.shortname@[i])
            },
    {
        if self.shortname.as_str().is_empty() {
            match random_shortname() {
                Ok(generated) => Ok(self.fill_shortname(generated)),
                Err(e) => Err(e),
            }
        } else {
            Ok(self)
        }
    }
}

/// The notice shown when the password does not match.
pub fn invalid_password_alert() -> (a: Alert)
    ensures
        a matches Alert::Error(m) && m@ == "Password was invalid."@,
{
    Alert::Error(String::from_str("Password was invalid."))
}

/// The address at which the link `shortname` is served.
pub fn public_link(base_url: &str, shortname: &str) -> (r: String)
    ensures
        r@ == base_url@ + "/"@ + shortname@,
{
    concat3(base_url, "/", shortname)
}

/// The stored link, once the storage API created it: its counter starts at zero.
pub open spec fn created_link(l: LinkModel) -> LinkModel {
    LinkModel { clicks: 0, ..l }
}

/// The link stored after a creation is the storage API's answer with its
/// visit count reset: same shortname, same long URL, same creation time, and
/// no visits.
pub proof fn law_created_link_keeps_the_answer(l: LinkModel)
    ensures
        created_link(l).shortname == l.shortname,
        created_link(l).longurl == l.longurl,
        created_link(l).created_at.secs == l.created_at.secs,
        created_link(l).created_at.nanos == l.created_at.nanos,
        created_link(l).clicks == 0,
{
}

impl State {
    /// Takes in the storage API's answer to the creation of the link
    /// submitted as `shortname` (the reply itself, or the text of what went
    /// wrong in sending the request or reading the reply), and returns the
    /// notice to show. It takes the approval that checking the form's
    /// password against this state's stored hash gave: no link is created
    /// without a password that matches it.
    pub fn record_create_response(
        &mut self,
        approval: Approval,
        base_url: &str,
        shortname: &str,
        reply: Result<CreateEntryApiResponse, String>,
    ) -> (alert: Alert)
        requires
            approval.hash() == old(self).password_hash_view(),
        ensures
            bcrypt_verdict(approval.password(), old(self).password_hash_view()) == Some(true),
            final(self).password_hash_view() == old(self).password_hash_view(),
            match reply {
                Ok(CreateEntryApiResponse::Success(link)) => {
                    &&& final(self).links_view() == old(self).links_view().insert(link.shortname@, created_link(link@))
                    &&& alert matches Alert::Success(m) && m@ == base_url@ + "/"@ + shortname@
                },
                Ok(CreateEntryApiResponse::Error(e)) => {
                    &&& final(self).links_view() == old(self).links_view()
                    &&& alert matches Alert::Error(m) && m@ == e.message@
                },
                Err(detail) => {
                    &&& final(self).links_view() == old(self).links_view()
                    &&& alert matches Alert::Error(m) && m@ == "Unexpected error: "@ + detail@
                },
            },
    {
        proof {
            use_type_invariant(&approval);
        }
        match reply {
            Ok(CreateEntryApiResponse::Success(link)) => {
                let stored = crate::state::Link { clicks: 0, ..link };
                self.links.insert(stored);
                Alert::Success(public_link(base_url, shortname))
            },
            Ok(CreateEntryApiResponse::Error(e)) => Alert::Error(e.message),
            Err(detail) => Alert::Error(crate::util::text::concat("Unexpected error: ", detail.as_str())),
        }
    }
}


/// What the service does once the password of a creation form is checked.
#[derive(Debug)]
pub enum CreatePlan {
    /// The password does not match: this notice is flashed and the browser is
    /// sent back to the front page.
    Refuse(Alert),
    /// The password matched: the form is sent to the storage API, and its
    /// answer goes, with this approval, to [`State::record_create_response`].
    Send(Approval),
}

/// Why a creation form could not be handled.
#[derive(Clone, Copy, Debug, PartialEq, Eq, Structural)]
pub enum CreateError {
    /// The form came without a shortname and none could be drawn.
    NoRandomness,
    /// The stored password hash could not be read.
    Password(crate::state::PasswordError),
}

/// The first part of handling a submitted creation form.
#[derive(Debug)]
pub struct CreateStart {
    /// The form, with a generated shortname if it came without one.
    pub form: FormData,
    /// The values the form is to show again on the next page.
    pub remembered: FormValues,
    pub plan: CreatePlan,
}

impl State {
    /// Handles a submitted creation form up to the request to the storage
    /// API: gives it a shortname if it has none, keeps its values for the
    /// next page, and checks its password. An error is returned only when a
    /// shortname has to be drawn and no randomness can be had, or when the
    /// stored password hash cannot be read.
    pub fn start_create(&self, form: FormData) -> (r: Result<CreateStart, CreateError>)
        ensures
            match r {
                Ok(start) => {
                    &&& start.form.longurl == form.longurl
                    &&& start.form.password == form.password
                    &&& form.shortname@.len() != 0 ==> start.form.shortname == form.shortname
                    &&& form.shortname@.len() == 0 ==> start.form.shortname@.len() == GENERATED_SHORTNAME_LENGTH
                        && forall|i: int|
                        0 <= i < start.form.shortname@.len() ==> is_lowercase_alphanumeric(
                            #[trigger] start.form.shortname@[i],
                        )
                    &&& start.remembered.shortname@ == start.form.shortname@
                    &&& start.remembered.longurl@ == start.form.longurl@
                    &&& !start.remembered.shortname_is_disabled
                    &&& crate::state::password_check(
                        crate::state::bcrypt_verdict(form.password@, self.password_hash_view()),
                    ) == Ok::<bool, crate::state::PasswordError>(start.plan is Send)
                    &&& start.plan matches CreatePlan::Send(a) ==> (a.password() == form.password@ && a.hash()
                        == self.password_hash_view())
                    &&& start.plan matches CreatePlan::Refuse(a) ==> (a matches Alert::Error(m) && m@
                        == "Password was invalid."@)
                },
                Err(CreateError::NoRandomness) => form.shortname@.len() == 0,
                Err(CreateError::Password(e)) => crate::state::password_check(
                    crate::state::bcrypt_verdict(form.password@, self.password_hash_view()),
                ) == Err::<bool, crate::state::PasswordError>(e),
            },
    {
        let form = match form.with_shortname() {
            Ok(form) => form,
            Err(_) => return Err(CreateError::NoRandomness),
        };
        let remembered = FormValues::from(&form);
        match self.approve(form.password.as_str()) {
            Ok(Some(approval)) => Ok(CreateStart { form, remembered, plan: CreatePlan::Send(approval) }),
            Ok(None) => Ok(CreateStart { form, remembered, plan: CreatePlan::Refuse(invalid_password_alert()) }),
            Err(e) => Err(CreateError::Password(e)),
        }
    }
}

} // verus!

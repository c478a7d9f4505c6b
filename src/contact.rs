//! Contact-form submissions: field rules, the notification template, and the
//! queued email message.

use vstd::prelude::*;
use vstd::string::StringExecFns;
use validator::ValidateEmail;
use crate::text::{
    char_count, chars_of, same_chars, contains_chars, count_char, count_occurrences, has_infix, occurrences,
};

verus! {

/// A contact-form submission.
pub struct Request {
    pub name: String,
    pub email: String,
    pub subject: String,
    pub message: String,
    pub is_test: bool,
}

/// Names: letters, white space, `-` and `'` only.
pub const NAME_PATTERN: &'static str = r"^[\p{L}\s\-']+$";

/// Subjects: letters, digits, white space and common punctuation only.
pub const SAFE_TEXT_PATTERN: &'static str = r"^[\p{L}\p{N}\s.,!?@()'\[\]\-_&+=%°:;]+$";

/// Notification sent for each contact message.
pub const CONTACT_TEMPLATE: &'static str = r"
        <h2>New contact message</h2>
        <p><strong>From:</strong> {{name}} ({{email}})</p>
        <p><strong>Subject:</strong> {{subject}}</p>
        <hr>
        <p><strong>Message:</strong></p>
        <p>{{message}}</p>
        ";

/// What regex's `Regex::is_match` gives for `pattern` on `text` (false where the
/// pattern does not compile).
pub uninterp spec fn regex_is_match(pattern: Seq<char>, text: Seq<char>) -> bool;

/// What validator's `ValidateEmail::validate_email` gives for `text`.
pub uninterp spec fn email_accepted(text: Seq<char>) -> bool;

/// What handlebars renders for `template` with the four contact fields (none
/// where the template does not compile or render).
pub uninterp spec fn rendered_contact(
    template: Seq<char>,
    name: Seq<char>,
    email: Seq<char>,
    subject: Seq<char>,
    message: Seq<char>,
) -> Option<Seq<char>>;

/// Relies on regex's `Regex::new` and `Regex::is_match`: a function of the
/// pattern and the text.
#[verifier::external_body]
fn regex_matches(pattern: &str, text: &str) -> (r: bool)
    ensures
        r == regex_is_match(pattern@, text@),
{
    regex::Regex::new(pattern).map(|re| re.is_match(text)).unwrap_or(false)
}

/// Relies on validator's `ValidateEmail::validate_email`, which rejects any text
/// without an `@`.
#[verifier::external_body]
fn email_valid(text: &str) -> (r: bool)
    ensures
        r == email_accepted(text@),
        !has_infix(text@, seq!['@']) ==> !r,
{
    text.validate_email()
}

/// Relies on handlebars' `Handlebars::register_template_string` and `render`,
/// with the fields as the template's data.
#[verifier::external_body]
fn render_with_handlebars(template: &str, name: &str, email: &str, subject: &str, message: &str) -> (r: Option<String>)
    ensures
        match r {
            Some(s) => rendered_contact(template@, name@, email@, subject@, message@) == Some(s@),
            None => rendered_contact(template@, name@, email@, subject@, message@).is_none(),
        },
{
    let mut registry = handlebars::Handlebars::new();
    registry.register_template_string("contact", template).ok()?;
    let data = std::collections::BTreeMap::from(
        [("name", name), ("email", email), ("subject", subject), ("message", message)],
    );
    registry.render("contact", &data).ok()
}

/// Why a text field's content was refused.
#[derive(PartialEq, Eq, Structural, Clone, Copy, Debug)]
pub enum ContentError {
    /// Characters outside the field's allowed set.
    DisallowedCharacters,
    /// A `<` or `>`.
    HtmlCharacters,
    /// More than three occurrences of `http`.
    TooManyLinks,
    /// Some character appears more than fifty times.
    RepeatedCharacters,
}

/// Which fields of a submission failed their rules.
#[derive(PartialEq, Eq, Structural, Clone, Copy, Debug)]
pub struct ValidationFailure {
    pub name: bool,
    pub email: bool,
    pub subject: bool,
    pub message: bool,
}

/// Rendering the notification failed.
#[derive(PartialEq, Eq, Structural, Clone, Copy, Debug)]
pub struct TemplateError;

pub open spec fn http_seq() -> Seq<char> {
    seq!['h', 't', 't', 'p']
}

/// Some character of `m` appears more than fifty times.
pub open spec fn has_repetition(m: Seq<char>) -> bool {
    exists|i: int| 0 <= i < m.len() && char_count(m, m[i]) > 50
}

/// The result of the message content rules, checked in order.
pub open spec fn message_content_result(m: Seq<char>) -> Result<(), ContentError> {
    if has_infix(m, seq!['<']) || has_infix(m, seq!['>']) {
        Err(ContentError::HtmlCharacters)
    } else if occurrences(m, http_seq()) > 3 {
        Err(ContentError::TooManyLinks)
    } else if has_repetition(m) {
        Err(ContentError::RepeatedCharacters)
    } else {
        Ok(())
    }
}

pub open spec fn length_within(s: Seq<char>, min: int, max: int) -> bool {
    min <= s.len() <= max
}

pub open spec fn name_ok(s: Seq<char>) -> bool {
    length_within(s, 2, 100) && regex_is_match(NAME_PATTERN@, s)
}

pub open spec fn email_ok(s: Seq<char>) -> bool {
    email_accepted(s) && s.len() <= 100
}

pub open spec fn subject_ok(s: Seq<char>) -> bool {
    length_within(s, 2, 100) && regex_is_match(SAFE_TEXT_PATTERN@, s)
}

pub open spec fn message_ok(s: Seq<char>) -> bool {
    length_within(s, 10, 1000) && message_content_result(s) is Ok
}

/// Accepts names made of letters, white space, `-` and `'`.
pub fn validate_name(name: &str) -> (r: Result<(), ContentError>)
    ensures
        r == if regex_is_match(NAME_PATTERN@, name@) {
            Ok::<(), ContentError>(())
        } else {
            Err(ContentError::DisallowedCharacters)
        },
{
    if regex_matches(NAME_PATTERN, name) {
        Ok(())
    } else {
        Err(ContentError::DisallowedCharacters)
    }
}

/// Accepts text made of letters, digits, white space and common punctuation.
pub fn validate_text(text: &str) -> (r: Result<(), ContentError>)
    ensures
        r == if regex_is_match(SAFE_TEXT_PATTERN@, text@) {
            Ok::<(), ContentError>(())
        } else {
            Err(ContentError::DisallowedCharacters)
        },
{
    if regex_matches(SAFE_TEXT_PATTERN, text) {
        Ok(())
    } else {
        Err(ContentError::DisallowedCharacters)
    }
}

/// Refuses HTML brackets, more than three links, and heavy character repetition.
pub fn validate_message_content(message: &str) -> (r: Result<(), ContentError>)
    ensures
        r == message_content_result(message@),
{
    let m = chars_of(message);
    let lt = ['<'];
    let gt = ['>'];
    let http = ['h', 't', 't', 'p'];
    assert(lt@ =~= seq!['<']);
    assert(gt@ =~= seq!['>']);
    assert(http@ =~= http_seq());
    if contains_chars(m.as_slice(), lt.as_slice()) || contains_chars(m.as_slice(), gt.as_slice()) {
        return Err(ContentError::HtmlCharacters);
    }
    if count_occurrences(m.as_slice(), http.as_slice()) > 3 {
        return Err(ContentError::TooManyLinks);
    }
    let mut i: usize = 0;
    while i < m.len()
        invariant
            m@ == message@,
            !has_infix(message@, seq!['<']) && !has_infix(message@, seq!['>']),
            occurrences(message@, http_seq()) <= 3,
            i <= m@.len(),
            forall|k: int| 0 <= k < i ==> char_count(m@, m@[k]) <= 50,
        decreases m@.len() - i,
    {
        if count_char(m.as_slice(), m[i]) > 50 {
            assert(char_count(message@, message@[i as int]) > 50);
            return Err(ContentError::RepeatedCharacters);
        }
        i = i + 1;
    }
    Ok(())
}

impl Request {
    /// Checks every field; fails with the set of fields that broke a rule.
    pub fn validate(&self) -> (r: Result<(), ValidationFailure>)
        ensures
            r is Ok <==> (name_ok(self.name@) && email_ok(self.email@) && subject_ok(self.subject@)
                && message_ok(self.message@)),
            r matches Err(f) ==> f == (ValidationFailure {
                name: !name_ok(self.name@),
                email: !email_ok(self.email@),
                subject: !subject_ok(self.subject@),
                message: !message_ok(self.message@),
            }),
    {
        let name_len = chars_of(self.name.as_str()).len();
        let name_bad = name_len < 2 || name_len > 100 || validate_name(self.name.as_str()).is_err();
        let email_len = chars_of(self.email.as_str()).len();
        let email_bad = !email_valid(self.email.as_str()) || email_len > 100;
        let subject_len = chars_of(self.subject.as_str()).len();
        let subject_bad = subject_len < 2 || subject_len > 100 || validate_text(self.subject.as_str()).is_err();
        let message_len = chars_of(self.message.as_str()).len();
        let message_bad = message_len < 10 || message_len > 1000
            || validate_message_content(self.message.as_str()).is_err();
        if name_bad || email_bad || subject_bad || message_bad {
            Err(ValidationFailure { name: name_bad, email: email_bad, subject: subject_bad, message: message_bad })
        } else {
            Ok(())
        }
    }
}

/// The HTML notification for a contact message.
pub fn render_contact_template(name: &str, email: &str, subject: &str, message: &str) -> (r: Result<String, TemplateError>)
    ensures
        match r {
            Ok(s) => rendered_contact(CONTACT_TEMPLATE@, name@, email@, subject@, message@) == Some(s@),
            Err(_) => rendered_contact(CONTACT_TEMPLATE@, name@, email@, subject@, message@).is_none(),
        },
{
    match render_with_handlebars(CONTACT_TEMPLATE, name, email, subject, message) {
        Some(s) => Ok(s),
        None => Err(TemplateError),
    }
}

/// A message waiting in the outgoing email queue.
pub struct EmailMessage {
    pub to: String,
    pub subject: String,
    pub body: String,
}

impl EmailMessage {
    /// The line logged once the message has been handed over for delivery.
    pub fn delivery_notice(&self) -> (r: String)
        ensures
            r@ == "Email sent to "@ + self.to@ + " with subject: "@ + self.subject@,
    {
        String::from_str("Email sent to ").concat(self.to.as_str()).concat(" with subject: ").concat(
            self.subject.as_str(),
        )
    }
}

/// Collection that receives regular submissions.
pub const CONTACTS_COLLECTION: &'static str = "contacts";

/// Collection that receives submissions flagged as tests.
pub const TEST_CONTACTS_COLLECTION: &'static str = "contacts_test_submit_contact";

/// API key that marks a deployment where no email may leave.
pub const TEST_API_KEY: &'static str = "test_key";

/// Why a submission was not accepted.
#[derive(PartialEq, Eq, Structural, Clone, Copy, Debug)]
pub enum SubmitError {
    /// The form broke the field rules.
    Validation(ValidationFailure),
    /// The submission could not be stored.
    Storage,
    /// The notification email could not be sent.
    Email,
}

/// A stored contact document lacks a required field.
#[derive(PartialEq, Eq, Structural, Clone, Copy, Debug)]
pub enum MissingField {
    Name,
    Email,
    Subject,
    Message,
}

/// The collection a submission is stored in.
pub fn contact_collection(is_test: bool) -> (r: &'static str)
    ensures
        r@ == if is_test {
            TEST_CONTACTS_COLLECTION@
        } else {
            CONTACTS_COLLECTION@
        },
{
    if is_test {
        TEST_CONTACTS_COLLECTION
    } else {
        CONTACTS_COLLECTION
    }
}

/// A stored submission is followed by an email unless it is a test or the
/// service runs with the test API key.
pub fn should_send_email(form: &Request, api_key: &str) -> (r: bool)
    ensures
        r == (!form.is_test && api_key@ != TEST_API_KEY@),
{
    if form.is_test {
        return false;
    }
    let key = chars_of(api_key);
    let test_key = chars_of(TEST_API_KEY);
    !same_chars(key.as_slice(), test_key.as_slice())
}

/// HTTP status of the answer to a submission: 200 on success, 400 for a form
/// that broke the rules, 500 otherwise.
pub fn submit_status(r: &Result<(), SubmitError>) -> (s: u16)
    ensures
        s == match *r {
            Ok(_) => 200u16,
            Err(SubmitError::Validation(_)) => 400u16,
            Err(_) => 500u16,
        },
{
    match r {
        Ok(_) => 200,
        Err(SubmitError::Validation(_)) => 400,
        Err(_) => 500,
    }
}

/// A submission read back from storage; every text field is required and an
/// absent test flag means `false`.
pub fn contact_from_fields(
    name: Option<String>,
    email: Option<String>,
    subject: Option<String>,
    message: Option<String>,
    is_test: Option<bool>,
) -> (r: Result<Request, MissingField>)
    ensures
        name is None ==> r == Err::<Request, MissingField>(MissingField::Name),
        name is Some && email is None ==> r == Err::<Request, MissingField>(MissingField::Email),
        name is Some && email is Some && subject is None ==> r == Err::<Request, MissingField>(MissingField::Subject),
        name is Some && email is Some && subject is Some && message is None ==> r == Err::<Request, MissingField>(MissingField::Message),
        r matches Ok(c) ==> (name == Some(c.name) && email == Some(c.email) && subject == Some(c.subject)
            && message == Some(c.message) && c.is_test == match is_test {
                Some(b) => b,
                None => false,
            }),
        (name is Some && email is Some && subject is Some && message is Some) ==> r is Ok,
{
    let name = match name {
        Some(v) => v,
        None => return Err(MissingField::Name),
    };
    let email = match email {
        Some(v) => v,
        None => return Err(MissingField::Email),
    };
    let subject = match subject {
        Some(v) => v,
        None => return Err(MissingField::Subject),
    };
    let message = match message {
        Some(v) => v,
        None => return Err(MissingField::Message),
    };
    let is_test = match is_test {
        Some(b) => b,
        None => false,
    };
    Ok(Request { name, email, subject, message, is_test })
}

} // verus!

//! The study material and the values that travel with a request.

use crate::router::Request;
use crate::text::{chars_of, matches_at, same_text};
use vstd::prelude::*;
use vstd::utf8::{decode_utf8, valid_utf8};

verus! {

/// How well a card was remembered.
#[derive(Clone, Copy, Debug, PartialEq, Eq, Structural)]
pub enum Rating {
    Terrible,
    Bad,
    Okay,
    Good,
    Perfect,
}

/// The lower-case word that stands for a rating.
pub open spec fn rating_word(rating: Rating) -> Seq<char> {
    match rating {
        Rating::Terrible => "terrible"@,
        Rating::Bad => "bad"@,
        Rating::Okay => "ok"@,
        Rating::Good => "good"@,
        Rating::Perfect => "perfect"@,
    }
}

impl Rating {
    /// Every rating, from the worst to the best.
    pub fn all() -> (ratings: [Rating; 5])
        ensures
            ratings@ == seq![
                Rating::Terrible,
                Rating::Bad,
                Rating::Okay,
                Rating::Good,
                Rating::Perfect,
            ],
    {
        [Rating::Terrible, Rating::Bad, Rating::Okay, Rating::Good, Rating::Perfect]
    }

    /// The word for this rating, as it appears in markup and file names.
    pub fn as_str(&self) -> (word: &'static str)
        ensures
            word@ == rating_word(*self),
    {
        match self {
            Rating::Terrible => "terrible",
            Rating::Bad => "bad",
            Rating::Okay => "ok",
            Rating::Good => "good",
            Rating::Perfect => "perfect",
        }
    }

    /// The word for this rating as an owned string.
    pub fn to_string(&self) -> (word: String)
        ensures
            word@ == rating_word(*self),
    {
        String::from_str(self.as_str())
    }
}

/// One flashcard: a term and what it means.
#[derive(Clone, Debug, PartialEq, Eq)]
pub struct Card {
    pub term: String,
    pub definition: String,
}

/// A subject that card sets are filed under.
#[derive(Clone, Debug, PartialEq, Eq)]
pub struct Subject {
    pub name: String,
    pub color: String,
}

/// A subject as plain text.
pub struct SubjectView {
    pub name: Seq<char>,
    pub color: Seq<char>,
}

impl View for Subject {
    type V = SubjectView;

    open spec fn view(&self) -> SubjectView {
        SubjectView { name: self.name@, color: self.color@ }
    }
}

impl Subject {
    /// The subjects of a table of `(name, color)` rows, row by row.
    pub fn fetch_all(table: &[(&str, &str)]) -> (subjects: Vec<Subject>)
        ensures
            subjects.len() == table.len(),
            forall|i: int|
                0 <= i < table.len() ==> (#[trigger] subjects[i]).name@ == table[i].0@
                    && subjects[i].color@ == table[i].1@,
    {
        let mut subjects: Vec<Subject> = Vec::new();
        let mut i: usize = 0;
        while i < table.len()
            invariant
                i <= table.len(),
                subjects.len() == i,
                forall|j: int|
                    0 <= j < i ==> (#[trigger] subjects[j]).name@ == table[j].0@
                        && subjects[j].color@ == table[j].1@,
            decreases table.len() - i,
        {
            let row = &table[i];
            subjects.push(Subject { name: String::from_str(row.0), color: String::from_str(row.1) });
            i += 1;
        }
        subjects
    }
}

/// A set of cards, as one file of the collection describes it.
#[derive(Clone, Debug)]
pub struct CardSet {
    pub path: String,
    pub title: String,
    pub description: String,
    pub subject: Subject,
    pub cards: Vec<Card>,
}

/// The directory that holds the sets of `subject`.
pub open spec fn set_directory(subject: Seq<char>) -> Seq<char> {
    "./flashcards/"@ + subject
}

impl CardSet {
    /// The directory that holds the sets of `subject`.
    pub fn directory(subject: &str) -> (path: String)
        ensures
            path@ == set_directory(subject@),
    {
        let mut path = String::from_str("./flashcards/");
        path.append(subject);
        path
    }

    /// Tells whether an entry of a subject's directory holds a set: it is a
    /// file, and its name ends in `.toml`.
    pub fn is_set_file(name: &str, is_file: bool) -> (holds: bool)
        ensures
            holds == (is_file && ".toml"@.is_suffix_of(name@)),
    {
        if !is_file {
            return false;
        }
        let v = chars_of(name);
        let ending = chars_of(".toml");
        if ending.len() > v.len() {
            return false;
        }
        let at = v.len() - ending.len();
        matches_at(&v, at, &ending)
    }

    /// The path of the file `name` among the sets of `subject`.
    pub fn file_path(subject: &str, name: &str) -> (path: String)
        ensures
            path@ == set_directory(subject@) + "/"@ + name@,
    {
        let mut path = CardSet::directory(subject);
        path.append("/");
        path.append(name);
        path
    }
}

/// Why a request could not be served.
#[derive(Clone, Debug, PartialEq, Eq)]
pub enum ResourceError {
    /// Nothing is served under this path.
    NotFound(String),
    /// A failure that is described by its message alone.
    Custom(String),
    /// The path is served, but not for the request's method.
    MethodNotAllowed,
    /// The form lacks the field of this name.
    MissingParameter(String),
    /// The store could not say whether an identifier is taken.
    StorageUnavailable,
    /// No content type is known for the asset of this name.
    MissingMimeType(String),
}

/// An error as plain text.
pub enum ResourceErrorView {
    NotFound(Seq<char>),
    Custom(Seq<char>),
    MethodNotAllowed,
    MissingParameter(Seq<char>),
    StorageUnavailable,
    MissingMimeType(Seq<char>),
}

impl View for ResourceError {
    type V = ResourceErrorView;

    open spec fn view(&self) -> ResourceErrorView {
        match self {
            ResourceError::NotFound(path) => ResourceErrorView::NotFound(path@),
            ResourceError::Custom(message) => ResourceErrorView::Custom(message@),
            ResourceError::MethodNotAllowed => ResourceErrorView::MethodNotAllowed,
            ResourceError::MissingParameter(key) => ResourceErrorView::MissingParameter(key@),
            ResourceError::StorageUnavailable => ResourceErrorView::StorageUnavailable,
            ResourceError::MissingMimeType(name) => ResourceErrorView::MissingMimeType(name@),
        }
    }
}

/// The sentence that describes an error.
pub open spec fn error_text(error: ResourceErrorView) -> Seq<char> {
    match error {
        ResourceErrorView::NotFound(path) => "path '"@ + path
            + "' couldn't be found. maybe it fell out of a coconut tree?"@,
        ResourceErrorView::Custom(message) => message,
        ResourceErrorView::MethodNotAllowed => "the path does not take this method"@,
        ResourceErrorView::MissingParameter(key) => "the form lacks the field '"@ + key + "'"@,
        ResourceErrorView::StorageUnavailable => "the store could not be asked"@,
        ResourceErrorView::MissingMimeType(name) => "no content type is known for '"@ + name
            + "'"@,
    }
}

/// `prefix`, `middle` and `suffix` in one string.
fn framed(prefix: &str, middle: &str, suffix: &str) -> (r: String)
    ensures
        r@ == prefix@ + middle@ + suffix@,
{
    let mut r = String::from_str(prefix);
    r.append(middle);
    r.append(suffix);
    r
}

impl ResourceError {
    /// The sentence that describes this error.
    pub fn to_string(&self) -> (text: String)
        ensures
            text@ == error_text(self@),
    {
        match self {
            ResourceError::NotFound(path) => framed(
                "path '",
                path.as_str(),
                "' couldn't be found. maybe it fell out of a coconut tree?",
            ),
            ResourceError::Custom(message) => message.clone(),
            ResourceError::MethodNotAllowed => String::from_str(
                "the path does not take this method",
            ),
            ResourceError::MissingParameter(key) => framed(
                "the form lacks the field '",
                key.as_str(),
                "'",
            ),
            ResourceError::StorageUnavailable => String::from_str("the store could not be asked"),
            ResourceError::MissingMimeType(name) => framed(
                "no content type is known for '",
                name.as_str(),
                "'",
            ),
        }
    }
}

/// The text that `String::from_utf8_lossy` reads from bytes.
pub uninterp spec fn lossy_text(bytes: Seq<u8>) -> Seq<char>;

/// Reads `bytes` as text with `String::from_utf8_lossy`: bytes that are
/// UTF-8 give the text that they encode, and in others each ill-formed part
/// gives way to the replacement character. The text is a function of the
/// bytes alone, named [`lossy_text`].
#[verifier::external_body]
fn utf8_lossy(bytes: &[u8]) -> (text: String)
    ensures
        text@ == lossy_text(bytes@),
        valid_utf8(bytes@) ==> text@ == decode_utf8(bytes@),
{
    String::from_utf8_lossy(bytes).into_owned()
}

/// The text of a request body.
pub fn body_to_string(body: &[u8]) -> (text: String)
    ensures
        text@ == lossy_text(body@),
        valid_utf8(body@) ==> text@ == decode_utf8(body@),
{
    utf8_lossy(body)
}

/// The `(name, value)` pairs that `url::form_urlencoded::parse` reads from a
/// form body or a query, in the order in which they stand there.
pub uninterp spec fn form_pairs(input: Seq<char>) -> Seq<(Seq<char>, Seq<char>)>;

/// Splits and decodes `input` with `url::form_urlencoded::parse`. The pairs
/// that come back are a function of the input alone, named [`form_pairs`];
/// of an empty input the parser yields no pair.
#[verifier::external_body]
fn parse_form(input: &str) -> (pairs: Vec<(String, String)>)
    ensures
        pairs.deep_view() == form_pairs(input@),
        input@.len() == 0 ==> pairs@.len() == 0,
{
    url::form_urlencoded::parse(input.as_bytes()).into_owned().collect()
}

/// The map that holds, for each name, the value of the last pair with that
/// name.
pub open spec fn pairs_map(pairs: Seq<(Seq<char>, Seq<char>)>) -> Map<Seq<char>, Seq<char>>
    decreases pairs.len(),
{
    if pairs.len() == 0 {
        Map::empty()
    } else {
        pairs_map(pairs.drop_last()).insert(pairs.last().0, pairs.last().1)
    }
}

/// The fields of a query or a form, in the order in which they were sent.
/// A name that was sent twice has the value that was sent last.
#[derive(Clone, Debug)]
pub struct Query(pub Vec<(String, String)>);

impl View for Query {
    type V = Map<Seq<char>, Seq<char>>;

    open spec fn view(&self) -> Map<Seq<char>, Seq<char>> {
        pairs_map(self.0.deep_view())
    }
}

impl Default for Query {
    fn default() -> (query: Query)
        ensures
            query.0@.len() == 0,
            query@ == Map::<Seq<char>, Seq<char>>::empty(),
    {
        Query(Vec::new())
    }
}

/// The sentence with which [`Query::get`] reports a field that was not sent.
pub open spec fn missing_field_text(key: Seq<char>) -> Seq<char> {
    "Expected query param '"@ + key + "'"@
}

impl Query {
    /// The fields of the request's query; none where it has no query.
    pub fn from_request(request: &Request) -> (query: Query)
        ensures
            query.0.deep_view() == match request.query {
                Some(text) => form_pairs(text@),
                None => Seq::empty(),
            },
    {
        match &request.query {
            Some(text) => Query::from_str(text.as_str()),
            None => Query::default(),
        }
    }

    /// The fields that the form-encoded text `query` holds.
    pub fn from_str(query: &str) -> (parsed: Query)
        ensures
            parsed.0.deep_view() == form_pairs(query@),
            query@.len() == 0 ==> parsed.0@.len() == 0,
    {
        Query(parse_form(query))
    }

    /// The value of the field `key`, or an error that names the field.
    pub fn get(&self, key: &str) -> (value: Result<String, ResourceError>)
        ensures
            match value {
                Ok(text) => self@.contains_key(key@) && text@ == self@[key@],
                Err(error) => !self@.contains_key(key@) && error@ == ResourceErrorView::Custom(
                    missing_field_text(key@),
                ),
            },
    {
        let ghost all = self.0.deep_view();
        let mut i: usize = self.0.len();
        assert(all.take(i as int) =~= all);
        while i > 0
            invariant
                i <= self.0.len(),
                all == self.0.deep_view(),
                pairs_map(all).contains_key(key@) == pairs_map(all.take(i as int)).contains_key(
                    key@,
                ),
                pairs_map(all).contains_key(key@) ==> pairs_map(all)[key@] == pairs_map(
                    all.take(i as int),
                )[key@],
            decreases i,
        {
            i -= 1;
            proof {
                let upto = all.take(i + 1);
                assert(upto.drop_last() =~= all.take(i as int));
            }
            let entry = &self.0[i];
            if same_text(entry.0.as_str(), key) {
                return Ok(entry.1.clone());
            }
        }
        Err(ResourceError::Custom(framed("Expected query param '", key, "'")))
    }
}

} // verus!

//! Events as the pool sees them: the fields it reads, beside the signed
//! event of the protocol crate that they are declared of.

use vstd::prelude::*;
use crate::error::Error;

verus! {

/// An event of the protocol crate, with its signature. The pool carries it
/// and hands it on; what it reads of it, it reads through the functions of
/// this file.
#[verifier::external_type_specification]
#[verifier::external_body]
pub struct ExSignedEvent(nostr_sdk_base::Event);

/// `Clone::clone` of `nostr_sdk_base::Event`, which is derived field by
/// field: the copy is the same event.
pub assume_specification[ <nostr_sdk_base::Event as Clone>::clone ](
    source: &nostr_sdk_base::Event,
) -> (copy: nostr_sdk_base::Event)
    ensures
        copy == *source,
;

/// One tag of an event, reduced to its content: the second string of the tag,
/// where it has one.
#[derive(Debug, PartialEq, Eq)]
pub struct Tag {
    pub content: Option<String>,
}

impl View for Tag {
    type V = Option<Seq<char>>;

    open spec fn view(&self) -> Option<Seq<char>> {
        match self.content {
            Some(s) => Some(s@),
            None => None,
        }
    }
}

impl Clone for Tag {
    fn clone(&self) -> (copy: Tag)
        ensures
            copy@ == self@,
    {
        match &self.content {
            Some(s) => Tag { content: Some(s.clone()) },
            None => Tag { content: None },
        }
    }
}

/// The mathematical value of an [`NostrEvent`].
pub struct NostrEventView {
    pub id: Seq<char>,
    pub pubkey: Seq<char>,
    pub tags: Seq<Option<Seq<char>>>,
    pub signed: nostr_sdk_base::Event,
}

/// An event: the identity, the author and the tags that it declares, and
/// the signed event that they are declared of.
#[derive(Debug, PartialEq, Eq)]
pub struct NostrEvent {
    /// The identity, in lower-case hexadecimal.
    pub id: String,
    /// The author's public key, in lower-case hexadecimal.
    pub pubkey: String,
    /// The tags, in order.
    pub tags: Vec<Tag>,
    /// The event as the protocol crate holds it.
    pub signed: nostr_sdk_base::Event,
}

/// The views of a list of tags, one by one.
pub open spec fn tag_views(tags: Seq<Tag>) -> Seq<Option<Seq<char>>> {
    Seq::new(tags.len(), |i: int| tags[i]@)
}

impl View for NostrEvent {
    type V = NostrEventView;

    open spec fn view(&self) -> NostrEventView {
        NostrEventView {
            id: self.id@,
            pubkey: self.pubkey@,
            tags: tag_views(self.tags@),
            signed: self.signed,
        }
    }
}

/// The signed event that a JSON text holds, where the text is a well-formed
/// event whose signature is valid for its content.
pub uninterp spec fn signed_event(json: Seq<char>) -> Option<nostr_sdk_base::Event>;

/// Whether the signature of a signed event is valid for its content.
pub uninterp spec fn signature_holds(signed: nostr_sdk_base::Event) -> bool;

/// The identity of a signed event, as text.
pub uninterp spec fn identity_of(signed: nostr_sdk_base::Event) -> Seq<char>;

/// The author's public key of a signed event, as text.
pub uninterp spec fn author_of(signed: nostr_sdk_base::Event) -> Seq<char>;

/// The contents of the tags of a signed event, in order.
pub uninterp spec fn tag_contents_of(signed: nostr_sdk_base::Event) -> Seq<Option<Seq<char>>>;

/// The event that declares what `signed` holds.
pub open spec fn declared_by(signed: nostr_sdk_base::Event) -> NostrEventView {
    NostrEventView {
        id: identity_of(signed),
        pubkey: author_of(signed),
        tags: tag_contents_of(signed),
        signed,
    }
}

impl NostrEventView {
    /// The content of the first tag, where the event has a tag and that tag
    /// has a content.
    pub open spec fn first_tag(self) -> Option<Seq<char>> {
        if self.tags.len() > 0 {
            self.tags[0]
        } else {
            None
        }
    }

    /// Whether the event was written by `identity` or names it in its first
    /// tag.
    pub open spec fn concerns(self, identity: Seq<char>) -> bool {
        self.pubkey == identity || self.first_tag() == Some(identity)
    }

    /// Whether the event declares this identity, author and tags.
    pub open spec fn declares(
        self,
        id: Seq<char>,
        pubkey: Seq<char>,
        tags: Seq<Option<Seq<char>>>,
    ) -> bool {
        self.id == id && self.pubkey == pubkey && self.tags == tags
    }

    /// Whether the declared fields are those of the signed event.
    pub open spec fn faithful(self) -> bool {
        self.declares(
            identity_of(self.signed),
            author_of(self.signed),
            tag_contents_of(self.signed),
        )
    }

    /// Whether the event is what it says: the signature of the signed event
    /// holds, and the declared fields are its fields.
    pub open spec fn authentic(self) -> bool {
        signature_holds(self.signed) && self.faithful()
    }
}

/// `nostr_sdk_base::Event::from_json`: deserialises the text and checks the
/// signature against the content, so what comes out is a function of the
/// text alone and carries a signature that holds.
#[verifier::external_body]
fn event_of_json(json: &str) -> (signed: Option<nostr_sdk_base::Event>)
    ensures
        signed == signed_event(json@),
        signed matches Some(event) ==> signature_holds(event),
{
    nostr_sdk_base::Event::from_json(json.to_string()).ok()
}

/// `nostr_sdk_base::Event::verify`: whether the signature is valid for the
/// content.
#[verifier::external_body]
fn signature_checked(signed: &nostr_sdk_base::Event) -> (holds: bool)
    ensures
        holds == signature_holds(*signed),
{
    signed.verify().is_ok()
}

/// The field `id` of `nostr_sdk_base::Event`, written as text.
#[verifier::external_body]
fn identity_text(signed: &nostr_sdk_base::Event) -> (id: String)
    ensures
        id@ == identity_of(*signed),
{
    signed.id.to_string()
}

/// The field `pubkey` of `nostr_sdk_base::Event`, written as text.
#[verifier::external_body]
fn author_text(signed: &nostr_sdk_base::Event) -> (pubkey: String)
    ensures
        pubkey@ == author_of(*signed),
{
    signed.pubkey.to_string()
}

/// `nostr_sdk_base::Tag::content`, of each tag of the field `tags` of
/// `nostr_sdk_base::Event`, in order.
#[verifier::external_body]
fn tag_contents(signed: &nostr_sdk_base::Event) -> (tags: Vec<Tag>)
    ensures
        tag_views(tags@) == tag_contents_of(*signed),
{
    signed.tags.iter().map(|tag| Tag { content: tag.content().map(String::from) }).collect()
}

/// Copies a list of tags.
fn clone_tags(tags: &Vec<Tag>) -> (copy: Vec<Tag>)
    ensures
        tag_views(copy@) == tag_views(tags@),
{
    let mut copy: Vec<Tag> = Vec::new();
    let mut i: usize = 0;
    while i < tags.len()
        invariant
            i <= tags.len(),
            copy.len() == i,
            forall|k: int| 0 <= k < i ==> copy[k]@ == tags[k]@,
        decreases tags.len() - i,
    {
        copy.push(tags[i].clone());
        i += 1;
    }
    assert(tag_views(copy@) =~= tag_views(tags@));
    copy
}

/// Whether two lists of tags hold the same contents in the same order.
pub fn same_tags(a: &Vec<Tag>, b: &Vec<Tag>) -> (same: bool)
    ensures
        same == (tag_views(a@) == tag_views(b@)),
{
    if a.len() != b.len() {
        assert(tag_views(a@).len() != tag_views(b@).len());
        return false;
    }
    let mut i: usize = 0;
    while i < a.len()
        invariant
            i <= a.len(),
            a.len() == b.len(),
            forall|k: int| 0 <= k < i ==> a[k]@ == b[k]@,
        decreases a.len() - i,
    {
        let equal = match (&a[i].content, &b[i].content) {
            (Some(x), Some(y)) => *x == *y,
            (None, None) => true,
            _ => false,
        };
        if !equal {
            assert(tag_views(a@)[i as int] != tag_views(b@)[i as int]);
            return false;
        }
        i += 1;
    }
    assert(tag_views(a@) =~= tag_views(b@));
    true
}

impl Clone for NostrEvent {
    fn clone(&self) -> (copy: NostrEvent)
        ensures
            copy@ == self@,
    {
        NostrEvent {
            id: self.id.clone(),
            pubkey: self.pubkey.clone(),
            tags: clone_tags(&self.tags),
            signed: self.signed.clone(),
        }
    }
}

impl NostrEvent {
    /// The event that declares what `signed` holds. Its signature may hold
    /// or not.
    pub fn new(signed: nostr_sdk_base::Event) -> (event: NostrEvent)
        ensures
            event@ == declared_by(signed),
            event@.faithful(),
    {
        NostrEvent {
            id: identity_text(&signed),
            pubkey: author_text(&signed),
            tags: tag_contents(&signed),
            signed,
        }
    }

    /// Reads an event from its JSON text. Succeeds exactly on a well-formed
    /// event with a valid signature, and then returns what that event
    /// holds.
    pub fn from_json(json: &str) -> (parsed: Result<NostrEvent, Error>)
        ensures
            match signed_event(json@) {
                Some(signed) => parsed matches Ok(e) && e@ == declared_by(signed)
                    && e@.authentic(),
                None => parsed == Err::<NostrEvent, Error>(Error::ParseError),
            },
    {
        match event_of_json(json) {
            Some(signed) => Ok(NostrEvent::new(signed)),
            None => Err(Error::ParseError),
        }
    }

    /// Whether the event declares this identity, author and tags.
    pub fn declares(&self, id: &String, pubkey: &String, tags: &Vec<Tag>) -> (same: bool)
        ensures
            same == self@.declares(id@, pubkey@, tag_views(tags@)),
    {
        self.id == *id && self.pubkey == *pubkey && same_tags(&self.tags, tags)
    }

    /// What to make of the event, given whether the signature of its signed
    /// event holds and which identity, author and tags that event has: `Ok`
    /// exactly when the signature holds and the event declares those fields.
    pub fn verdict(&self, signature_holds: bool, id: &String, pubkey: &String, tags: &Vec<Tag>) -> (checked:
        Result<(), Error>)
        ensures
            checked == if signature_holds && self@.declares(id@, pubkey@, tag_views(tags@)) {
                Ok::<(), Error>(())
            } else {
                Err::<(), Error>(Error::InvalidSignature)
            },
    {
        if signature_holds && self.declares(id, pubkey, tags) {
            Ok(())
        } else {
            Err(Error::InvalidSignature)
        }
    }

    /// Checks the event: `Ok` exactly when the signature of its signed
    /// event holds and the declared identity, author and tags are that
    /// event's.
    pub fn verify(&self) -> (checked: Result<(), Error>)
        ensures
            checked == if self@.authentic() {
                Ok::<(), Error>(())
            } else {
                Err::<(), Error>(Error::InvalidSignature)
            },
    {
        let holds = signature_checked(&self.signed);
        let id = identity_text(&self.signed);
        let pubkey = author_text(&self.signed);
        let tags = tag_contents(&self.signed);
        self.verdict(holds, &id, &pubkey, &tags)
    }

    /// The content of the first tag, if there is one.
    pub fn first_tag_content(&self) -> (content: Option<&String>)
        ensures
            match content {
                Some(s) => self@.first_tag() == Some(s@),
                None => self@.first_tag() is None,
            },
    {
        if self.tags.len() > 0 {
            self.tags[0].content.as_ref()
        } else {
            None
        }
    }

    /// Whether the event was written by `identity` or names it in its first
    /// tag.
    pub fn concerns(&self, identity: &String) -> (hit: bool)
        ensures
            hit == self@.concerns(identity@),
    {
        if self.pubkey == *identity {
            return true;
        }
        match self.first_tag_content() {
            Some(s) => *s == *identity,
            None => false,
        }
    }
}

} // verus!

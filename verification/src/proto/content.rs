//! Encoded content: a typed, optionally compressed payload.

use vstd::prelude::*;
use crate::util::clone_bytes;

verus! {

/// Names the type of an encoded content.
#[derive(Debug, PartialEq, Eq, Default)]
pub struct ContentTypeId {
    pub authority_id: String,
    pub type_id: String,
    pub version_major: u32,
    pub version_minor: u32,
}

/// The mathematical value of a content type name.
pub struct ContentTypeView {
    pub authority_id: Seq<char>,
    pub type_id: Seq<char>,
    pub version_major: u32,
    pub version_minor: u32,
}

impl View for ContentTypeId {
    type V = ContentTypeView;

    open spec fn view(&self) -> ContentTypeView {
        ContentTypeView {
            authority_id: self.authority_id@,
            type_id: self.type_id@,
            version_major: self.version_major,
            version_minor: self.version_minor,
        }
    }
}

impl Clone for ContentTypeId {
    fn clone(&self) -> (copy: Self)
        ensures
            copy@ == self@,
    {
        ContentTypeId {
            authority_id: self.authority_id.clone(),
            type_id: self.type_id.clone(),
            version_major: self.version_major,
            version_minor: self.version_minor,
        }
    }
}

/// A payload together with what a reader needs to interpret it.
#[derive(Debug, PartialEq, Eq, Default)]
pub struct EncodedContent {
    pub content_type: Option<ContentTypeId>,
    pub parameters: Vec<(String, String)>,
    pub fallback: Option<String>,
    pub compression: Option<i32>,
    pub content: Vec<u8>,
}

/// The mathematical value of an encoded content.
pub struct ContentView {
    pub content_type: Option<ContentTypeView>,
    pub parameters: Seq<(Seq<char>, Seq<char>)>,
    pub fallback: Option<Seq<char>>,
    pub compression: Option<i32>,
    pub content: Seq<u8>,
}

/// The content with every field at its default: no type, no parameter, no
/// fallback, no compression and an empty payload.
pub open spec fn default_content() -> ContentView {
    ContentView {
        content_type: None,
        parameters: Seq::empty(),
        fallback: None,
        compression: None,
        content: Seq::empty(),
    }
}

impl View for EncodedContent {
    type V = ContentView;

    open spec fn view(&self) -> ContentView {
        ContentView {
            content_type: match self.content_type {
                Some(t) => Some(t@),
                None => None,
            },
            parameters: self.parameters@.map_values(|p: (String, String)| (p.0@, p.1@)),
            fallback: match self.fallback {
                Some(f) => Some(f@),
                None => None,
            },
            compression: self.compression,
            content: self.content@,
        }
    }
}

impl Clone for EncodedContent {
    fn clone(&self) -> (copy: Self)
        ensures
            copy@ == self@,
    {
        let content_type = match &self.content_type {
            Some(t) => Some(t.clone()),
            None => None,
        };
        let fallback = match &self.fallback {
            Some(f) => Some(f.clone()),
            None => None,
        };
        let mut parameters: Vec<(String, String)> = Vec::new();
        let mut i: usize = 0;
        while i < self.parameters.len()
            invariant
                0 <= i <= self.parameters@.len(),
                parameters@.len() == i,
                forall|k: int|
                    0 <= k < i ==> parameters@[k].0@ == self.parameters@[k].0@ && parameters@[k].1@
                        == self.parameters@[k].1@,
            decreases self.parameters@.len() - i,
        {
            let pair = &self.parameters[i];
            parameters.push((pair.0.clone(), pair.1.clone()));
            i += 1;
        }
        let copy = EncodedContent {
            content_type,
            parameters,
            fallback,
            compression: self.compression,
            content: clone_bytes(&self.content),
        };
        assert(copy@.parameters =~= self@.parameters);
        copy
    }
}

impl EncodedContent {
    /// The content with every field at its default.
    pub fn new() -> (c: EncodedContent)
        ensures
            c@ == default_content(),
    {
        let c = EncodedContent {
            content_type: None,
            parameters: Vec::new(),
            fallback: None,
            compression: None,
            content: Vec::new(),
        };
        assert(c@.parameters =~= Seq::empty());
        assert(c@.content =~= Seq::empty());
        c
    }
}

} // verus!

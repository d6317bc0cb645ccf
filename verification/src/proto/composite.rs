//! The composite content type: a list of parts, each an encoded content or
//! a composite in turn.

use vstd::prelude::*;
use crate::proto::content::{default_content, ContentView, EncodedContent};

verus! {

/// A list of parts.
#[derive(Debug, PartialEq, Eq, Default)]
pub struct Composite {
    pub parts: Vec<Part>,
}

/// One section of a composite: at most one of an encoded content and a
/// nested composite.
#[derive(Debug, PartialEq, Eq, Default)]
pub struct Part {
    pub element: Option<Element>,
}

/// What a part holds.
#[derive(Debug, PartialEq, Eq)]
#[non_exhaustive]
pub enum Element {
    Part(EncodedContent),
    Composite(Composite),
}

/// The mathematical value of what a part holds.
pub enum ElementView {
    Part(ContentView),
    Composite(Seq<PartView>),
}

/// The mathematical value of a part.
pub struct PartView {
    pub element: Option<ElementView>,
}

impl View for Composite {
    type V = Seq<PartView>;

    open spec fn view(&self) -> Seq<PartView>
        decreases self,
    {
        Seq::new(
            self.parts.len() as nat,
            |i: int|
                if 0 <= i < self.parts.len() {
                    self.parts[i]@
                } else {
                    PartView { element: None }
                },
        )
    }
}

impl View for Part {
    type V = PartView;

    open spec fn view(&self) -> PartView
        decreases self,
    {
        match self.element {
            Some(Element::Part(c)) => PartView { element: Some(ElementView::Part(c@)) },
            Some(Element::Composite(c)) => PartView { element: Some(ElementView::Composite(c@)) },
            None => PartView { element: None },
        }
    }
}

impl Composite {
    /// A composite without parts.
    pub fn new() -> (c: Composite)
        ensures
            c@ == Seq::<PartView>::empty(),
    {
        let c = Composite { parts: Vec::new() };
        assert(c@ =~= Seq::<PartView>::empty());
        c
    }
}

impl Part {
    /// A part that holds nothing.
    pub fn new() -> (p: Part)
        ensures
            p@.element is None,
    {
        Part { element: None }
    }

    /// Whether the part holds an encoded content.
    pub open spec fn holds_part(&self) -> bool {
        self@.element matches Some(ElementView::Part(_))
    }

    /// Whether the part holds a nested composite.
    pub open spec fn holds_composite(&self) -> bool {
        self@.element matches Some(ElementView::Composite(_))
    }

    /// The encoded content that the part holds, or the default content
    /// where it holds none.
    pub open spec fn part_or_default(&self) -> ContentView {
        match self@.element {
            Some(ElementView::Part(c)) => c,
            _ => default_content(),
        }
    }

    /// The parts of the composite that the part holds, or none where it
    /// holds no composite.
    pub open spec fn composite_or_default(&self) -> Seq<PartView> {
        match self@.element {
            Some(ElementView::Composite(parts)) => parts,
            _ => Seq::empty(),
        }
    }

    /// Whether the part holds an encoded content.
    pub fn has_part(&self) -> (has: bool)
        ensures
            has == self.holds_part(),
    {
        match self.element {
            Some(Element::Part(_)) => true,
            _ => false,
        }
    }

    /// Empties the part.
    pub fn clear_part(&mut self)
        ensures
            final(self)@.element is None,
    {
        self.element = None;
    }

    /// Makes the part hold the encoded content.
    pub fn set_part(&mut self, v: EncodedContent)
        ensures
            final(self)@.element == Some(ElementView::Part(v@)),
    {
        self.element = Some(Element::Part(v));
    }

    /// Whether the part holds a nested composite.
    pub fn has_composite(&self) -> (has: bool)
        ensures
            has == self.holds_composite(),
    {
        match self.element {
            Some(Element::Composite(_)) => true,
            _ => false,
        }
    }

    /// Empties the part.
    pub fn clear_composite(&mut self)
        ensures
            final(self)@.element is None,
    {
        self.element = None;
    }

    /// Makes the part hold the composite.
    pub fn set_composite(&mut self, v: Composite)
        ensures
            final(self)@.element == Some(ElementView::Composite(v@)),
    {
        self.element = Some(Element::Composite(v));
    }

    /// A copy of the part and of all that is nested in it.
    pub fn deep_copy(&self) -> (p: Part)
        ensures
            p@ == self@,
        decreases self,
    {
        match &self.element {
            Some(Element::Part(c)) => Part { element: Some(Element::Part(c.clone())) },
            Some(Element::Composite(c)) => Part { element: Some(Element::Composite(c.deep_copy())) },
            None => Part { element: None },
        }
    }

    /// The encoded content that the part holds, or the default content
    /// where it holds none.
    pub fn part(&self) -> (c: EncodedContent)
        ensures
            c@ == self.part_or_default(),
    {
        match &self.element {
            Some(Element::Part(v)) => v.clone(),
            _ => EncodedContent::new(),
        }
    }

    /// The composite that the part holds, or an empty one where it holds
    /// none.
    pub fn composite(&self) -> (c: Composite)
        ensures
            c@ == self.composite_or_default(),
    {
        match &self.element {
            Some(Element::Composite(v)) => v.deep_copy(),
            _ => Composite::new(),
        }
    }

    /// Takes the encoded content out of the part, which is left empty; a
    /// part that holds none is left as it is and gives the default content.
    pub fn take_part(&mut self) -> (c: EncodedContent)
        ensures
            c@ == old(self).part_or_default(),
            old(self).holds_part() ==> final(self)@.element is None,
            !old(self).holds_part() ==> final(self)@ == old(self)@,
    {
        if self.has_part() {
            match self.element.take() {
                Some(Element::Part(v)) => v,
                _ => vstd::pervasive::unreached(),
            }
        } else {
            EncodedContent::new()
        }
    }

    /// Takes the composite out of the part, which is left empty; a part that
    /// holds none is left as it is and gives an empty composite.
    pub fn take_composite(&mut self) -> (c: Composite)
        ensures
            c@ == old(self).composite_or_default(),
            old(self).holds_composite() ==> final(self)@.element is None,
            !old(self).holds_composite() ==> final(self)@ == old(self)@,
    {
        if self.has_composite() {
            match self.element.take() {
                Some(Element::Composite(v)) => v,
                _ => vstd::pervasive::unreached(),
            }
        } else {
            Composite::new()
        }
    }

    /// Access to the encoded content that the part holds, for changing it in
    /// place. A part that holds none is first made to hold the default
    /// content.
    pub fn mut_part(&mut self) -> (r: &mut EncodedContent)
        ensures
            r@ == old(self).part_or_default(),
            final(self)@.element == Some(ElementView::Part(final(r)@)),
    {
        if !self.has_part() {
            self.element = Some(Element::Part(EncodedContent::new()));
        }
        match &mut self.element {
            Some(Element::Part(v)) => v,
            _ => vstd::pervasive::unreached(),
        }
    }

    /// Access to the composite that the part holds, for changing it in
    /// place. A part that holds none is first made to hold an empty
    /// composite.
    pub fn mut_composite(&mut self) -> (r: &mut Composite)
        ensures
            r@ == old(self).composite_or_default(),
            final(self)@.element == Some(ElementView::Composite(final(r)@)),
    {
        if !self.has_composite() {
            self.element = Some(Element::Composite(Composite::new()));
        }
        match &mut self.element {
            Some(Element::Composite(v)) => v,
            _ => vstd::pervasive::unreached(),
        }
    }
}

impl Composite {
    /// A copy of the composite and of all that is nested in it.
    pub fn deep_copy(&self) -> (c: Composite)
        ensures
            c@ == self@,
        decreases self,
    {
        let mut parts: Vec<Part> = Vec::new();
        let mut i: usize = 0;
        while i < self.parts.len()
            invariant
                0 <= i <= self.parts.len(),
                parts.len() == i,
                forall|k: int| 0 <= k < i ==> parts[k]@ == self.parts[k]@,
            decreases self.parts.len() - i,
        {
            parts.push(self.parts[i].deep_copy());
            i += 1;
        }
        let c = Composite { parts };
        assert(c@ =~= self@);
        c
    }
}

} // verus!

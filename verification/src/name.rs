//! NDN names as lists of typed components.

use vstd::prelude::*;

verus! {

/// One component of a name.
#[derive(Clone, Debug, PartialEq, Eq)]
pub enum Component {
    /// Plain bytes.
    Generic(Vec<u8>),
    /// The number of a segment.
    Segment(u64),
    /// A version.
    Version(u64),
    /// Any other type of component.
    Typed { typ: u64, value: Vec<u8> },
}

/// A [`Component`] with its bytes as a sequence.
pub ghost enum ComponentView {
    Generic(Seq<u8>),
    Segment(u64),
    Version(u64),
    Typed { typ: u64, value: Seq<u8> },
}

impl View for Component {
    type V = ComponentView;

    open spec fn view(&self) -> ComponentView {
        match self {
            Component::Generic(value) => ComponentView::Generic(value@),
            Component::Segment(n) => ComponentView::Segment(*n),
            Component::Version(n) => ComponentView::Version(*n),
            Component::Typed { typ, value } => ComponentView::Typed { typ: *typ, value: value@ },
        }
    }
}

impl Component {
    /// A copy of this component.
    pub fn duplicate(&self) -> (copy: Component)
        ensures
            copy@ == self@,
    {
        match self {
            Component::Generic(value) => Component::Generic(
                vstd::slice::slice_to_vec(value.as_slice()),
            ),
            Component::Segment(n) => Component::Segment(*n),
            Component::Version(n) => Component::Version(*n),
            Component::Typed { typ, value } => Component::Typed {
                typ: *typ,
                value: vstd::slice::slice_to_vec(value.as_slice()),
            },
        }
    }

    /// Whether two components are the same.
    pub fn same(&self, other: &Component) -> (equal: bool)
        ensures
            equal == (self@ == other@),
    {
        match (self, other) {
            (Component::Generic(a), Component::Generic(b)) => same_bytes(
                a.as_slice(),
                b.as_slice(),
            ),
            (Component::Segment(a), Component::Segment(b)) => *a == *b,
            (Component::Version(a), Component::Version(b)) => *a == *b,
            (
                Component::Typed { typ: a, value: x },
                Component::Typed { typ: b, value: y },
            ) => *a == *b && same_bytes(x.as_slice(), y.as_slice()),
            (_, _) => false,
        }
    }
}

/// Whether two byte strings are the same.
pub fn same_bytes(a: &[u8], b: &[u8]) -> (equal: bool)
    ensures
        equal == (a@ == b@),
{
    if a.len() != b.len() {
        return false;
    }
    let mut i: usize = 0;
    while i < a.len()
        invariant
            i <= a@.len(),
            a@.len() == b@.len(),
            forall|k: int| 0 <= k < i ==> a@[k] == b@[k],
        decreases a@.len() - i,
    {
        if a[i] != b[i] {
            return false;
        }
        i = i + 1;
    }
    assert(a@ =~= b@);
    true
}

/// A name.
#[derive(Clone, Debug, PartialEq, Eq)]
pub struct Name {
    pub components: Vec<Component>,
}

/// The components of a list, each by its view.
pub open spec fn component_views(list: Seq<Component>) -> Seq<ComponentView> {
    Seq::new(list.len(), |i: int| list[i]@)
}

impl View for Name {
    type V = Seq<ComponentView>;

    open spec fn view(&self) -> Seq<ComponentView> {
        component_views(self.components@)
    }
}

/// The generic component that holds the bytes of a text.
pub open spec fn text_component(text: Seq<char>) -> ComponentView {
    ComponentView::Generic(vstd::utf8::encode_utf8(text))
}

/// The segment number that the last component of a name carries, if it is one.
pub open spec fn last_segment(name: Seq<ComponentView>) -> Option<u64> {
    if name.len() == 0 {
        None
    } else {
        match name.last() {
            ComponentView::Segment(seg) => Some(seg),
            _ => None,
        }
    }
}

impl Name {
    /// The name without components.
    pub fn root() -> (name: Name)
        ensures
            name@ == Seq::<ComponentView>::empty(),
    {
        let name = Name { components: Vec::new() };
        assert(name@ =~= Seq::<ComponentView>::empty());
        name
    }

    /// How many components the name has.
    pub fn len(&self) -> (len: usize)
        ensures
            len == self@.len(),
    {
        self.components.len()
    }

    /// The first `n` components.
    pub fn prefix(&self, n: usize) -> (name: Name)
        requires
            n <= self@.len(),
        ensures
            name@ == self@.take(n as int),
    {
        let mut components: Vec<Component> = Vec::new();
        let mut i: usize = 0;
        while i < n
            invariant
                i <= n <= self@.len(),
                component_views(components@) == self@.take(i as int),
            decreases n - i,
        {
            let ghost before = components@;
            components.push(self.components[i].duplicate());
            i = i + 1;
            proof {
                assert(component_views(components@) =~= component_views(before).push(
                    self@[i - 1],
                ));
                assert(self@.take(i as int) =~= self@.take(i - 1).push(self@[i - 1]));
            }
        }
        Name { components }
    }

    /// A copy of this name.
    pub fn duplicate(&self) -> (copy: Name)
        ensures
            copy@ == self@,
    {
        let copy: Name = self.prefix(self.len());
        assert(self@.take(self@.len() as int) =~= self@);
        copy
    }

    /// This name with one more component.
    pub fn append_component(self, component: Component) -> (name: Name)
        ensures
            name@ == self@.push(component@),
    {
        let ghost before = self@;
        let mut components: Vec<Component> = self.components;
        components.push(component);
        let name = Name { components };
        assert(name@ =~= before.push(component@));
        name
    }

    /// This name with a generic component added.
    pub fn append(self, value: &[u8]) -> (name: Name)
        ensures
            name@ == self@.push(ComponentView::Generic(value@)),
    {
        self.append_component(Component::Generic(vstd::slice::slice_to_vec(value)))
    }

    /// This name with a generic component added that holds the text `value`.
    pub fn append_str(self, value: &str) -> (name: Name)
        ensures
            name@ == self@.push(text_component(value@)),
            name@ == self@.push(ComponentView::Generic(vstd::utf8::encode_utf8(value@))),
    {
        self.append(value.as_bytes())
    }

    /// This name with a version added.
    pub fn append_version(self, version: u64) -> (name: Name)
        ensures
            name@ == self@.push(ComponentView::Version(version)),
    {
        self.append_component(Component::Version(version))
    }

    /// This name with the number of a segment added.
    pub fn append_segment(self, seg: u64) -> (name: Name)
        ensures
            name@ == self@.push(ComponentView::Segment(seg)),
    {
        self.append_component(Component::Segment(seg))
    }

    /// The segment number that the last component carries, if it is one.
    pub fn last_segment(&self) -> (seg: Option<u64>)
        ensures
            seg == last_segment(self@),
            match seg {
                Some(n) => self@.len() > 0 && self@.last() == ComponentView::Segment(n),
                None => self@.len() == 0 || self@.last() !is Segment,
            },
    {
        let n: usize = self.components.len();
        if n == 0 {
            return None;
        }
        match &self.components[n - 1] {
            Component::Segment(seg) => Some(*seg),
            _ => None,
        }
    }

    /// Whether two names have the same components.
    pub fn same(&self, other: &Name) -> (equal: bool)
        ensures
            equal == (self@ == other@),
    {
        if self.components.len() != other.components.len() {
            return false;
        }
        let mut i: usize = 0;
        while i < self.components.len()
            invariant
                i <= self@.len(),
                self@.len() == other@.len(),
                self.components@.len() == self@.len(),
                forall|k: int| 0 <= k < i ==> self@[k] == other@[k],
            decreases self@.len() - i,
        {
            if !self.components[i].same(&other.components[i]) {
                assert(self@[i as int] != other@[i as int]);
                return false;
            }
            assert(self@[i as int] == other@[i as int]);
            i = i + 1;
        }
        assert(self@ =~= other@);
        true
    }
}

} // verus!

//! Paths, by their components.
use crate::ordered::{
    lemma_list_total, lemma_list_transitive, list_before, list_is_before, Key,
};
use crate::text::{
    lemma_less_irreflexive, lemma_less_total, lemma_less_transitive, less, pieces, same, split,
    text_less,
};
use vstd::prelude::*;
use vstd::string::*;

verus! {

/// A component of a path: the root, the directory where the path begins, the directory above, or a
/// name.
#[derive(Debug)]
pub enum Component {
    Root,
    Current,
    Parent,
    Name(String),
}

/// A `Component` with its name as a sequence of characters.
#[verifier::ext_equal]
pub enum ComponentView {
    Root,
    Current,
    Parent,
    Name(Seq<char>),
}

impl DeepView for Component {
    type V = ComponentView;

    open spec fn deep_view(&self) -> ComponentView {
        match self {
            Component::Root => ComponentView::Root,
            Component::Current => ComponentView::Current,
            Component::Parent => ComponentView::Parent,
            Component::Name(name) => ComponentView::Name(name@),
        }
    }
}

impl Key for Component {
    open spec fn before(a: ComponentView, b: ComponentView) -> bool {
        match (a, b) {
            (ComponentView::Name(a), ComponentView::Name(b)) => text_less(a, b),
            (ComponentView::Name(_), _) => false,
            (_, ComponentView::Name(_)) => true,
            (ComponentView::Root, _) => b !is Root,
            (ComponentView::Current, _) => b is Parent,
            (ComponentView::Parent, _) => false,
        }
    }

    fn is_before(&self, other: &Self) -> (r: bool) {
        match (self, other) {
            (Component::Name(a), Component::Name(b)) => less(a.as_str(), b.as_str()),
            (Component::Name(_), _) => false,
            (_, Component::Name(_)) => true,
            (Component::Root, Component::Root) => false,
            (Component::Root, _) => true,
            (Component::Current, Component::Parent) => true,
            _ => false,
        }
    }

    proof fn is_total(a: ComponentView, b: ComponentView) {
        if let ComponentView::Name(x) = a {
            lemma_less_irreflexive(x);
            if let ComponentView::Name(y) = b {
                lemma_less_total(x, y);
            }
        }
    }

    proof fn is_transitive(a: ComponentView, b: ComponentView, c: ComponentView) {
        match (a, b, c) {
            (ComponentView::Name(x), ComponentView::Name(y), ComponentView::Name(z)) => {
                lemma_less_transitive(x, y, z);
            },
            _ => {},
        }
    }
}

impl Key for Vec<Component> {
    open spec fn before(a: Seq<ComponentView>, b: Seq<ComponentView>) -> bool {
        list_before::<Component>(a, b)
    }

    fn is_before(&self, other: &Self) -> (r: bool) {
        list_is_before(self, other)
    }

    proof fn is_total(a: Seq<ComponentView>, b: Seq<ComponentView>) {
        lemma_list_total::<Component>(a, b);
    }

    proof fn is_transitive(
        a: Seq<ComponentView>,
        b: Seq<ComponentView>,
        c: Seq<ComponentView>,
    ) {
        lemma_list_transitive::<Component>(a, b, c);
    }
}

/// The component that a part of a path between slashes is. A part without characters is none, but
/// for the one before the first slash, and `.` is none where it is not the first.
pub open spec fn component_of(part: Seq<char>, first: bool) -> Option<ComponentView> {
    if part.len() == 0 {
        if first {
            Some(ComponentView::Root)
        } else {
            None
        }
    } else if part == "."@ {
        if first {
            Some(ComponentView::Current)
        } else {
            None
        }
    } else if part == ".."@ {
        Some(ComponentView::Parent)
    } else {
        Some(ComponentView::Name(part))
    }
}

/// The components among the parts of a path.
pub open spec fn components_among(parts: Seq<Seq<char>>) -> Seq<ComponentView>
    decreases parts.len(),
{
    if parts.len() == 0 {
        Seq::empty()
    } else {
        let before = components_among(parts.drop_last());
        match component_of(parts.last(), parts.len() == 1) {
            Some(component) => before.push(component),
            None => before,
        }
    }
}

/// The components of a path.
pub open spec fn components_of(path: Seq<char>) -> Seq<ComponentView> {
    if path.len() == 0 {
        Seq::empty()
    } else {
        components_among(pieces(path, '/'))
    }
}

/// Whether one path comes before another, component for component.
pub open spec fn path_before(a: Seq<char>, b: Seq<char>) -> bool {
    list_before::<Component>(components_of(a), components_of(b))
}

fn read_component(part: &str, first: bool) -> (r: Option<Component>)
    ensures
        r.deep_view() == component_of(part@, first),
{
    proof {
        reveal_strlit("");
        reveal_strlit(".");
        reveal_strlit("..");
        assert(part@.len() == 0 ==> part@ =~= ""@);
    }
    if same(part, "") {
        if first {
            Some(Component::Root)
        } else {
            None
        }
    } else if same(part, ".") {
        if first {
            Some(Component::Current)
        } else {
            None
        }
    } else if same(part, "..") {
        Some(Component::Parent)
    } else {
        Some(Component::Name(part.to_owned()))
    }
}

/// The components of a path.
pub fn components(path: &str) -> (r: Vec<Component>)
    ensures
        r.deep_view() == components_of(path@),
{
    proof {
        reveal_strlit("");
        assert(path@.len() == 0 ==> path@ =~= ""@);
    }
    let mut r: Vec<Component> = Vec::new();
    assert(r.deep_view() =~= Seq::empty());
    if same(path, "") {
        return r;
    }
    let parts = split(path, '/');
    let ghost all = parts.deep_view();
    let mut i: usize = 0;
    while i < parts.len()
        invariant
            i <= parts@.len(),
            all == parts.deep_view(),
            r.deep_view() == components_among(all.take(i as int)),
        decreases parts@.len() - i,
    {
        let ghost held = r.deep_view();
        assert(all.take(i + 1).drop_last() =~= all.take(i as int));
        assert(all.take(i + 1).last() == parts@[i as int]@);
        if let Some(component) = read_component(parts[i].as_str(), i == 0) {
            r.push(component);
            assert(r.deep_view() =~= held.push(component.deep_view()));
        }
        i = i + 1;
    }
    assert(all.take(i as int) =~= all);
    r
}

/// A part of a path without characters, which a slash that is written twice or stands at the end
/// leaves, changes no component, and nor does the part `.`, where they are not the first.
pub proof fn lemma_slashes_do_not_matter(before: Seq<Seq<char>>, after: Seq<Seq<char>>)
    requires
        before.len() > 0,
    ensures
        components_among(before.push(Seq::empty()) + after) == components_among(before + after),
        components_among(before.push("."@) + after) == components_among(before + after),
    decreases after.len(),
{
    reveal_strlit(".");
    if after.len() == 0 {
        assert(before.push(Seq::empty()) + after =~= before.push(Seq::empty()));
        assert(before.push("."@) + after =~= before.push("."@));
        assert(before + after =~= before);
        assert(before.push(Seq::empty()).drop_last() =~= before);
        assert(before.push("."@).drop_last() =~= before);
    } else {
        let shorter = after.drop_last();
        lemma_slashes_do_not_matter(before, shorter);
        assert((before.push(Seq::empty()) + after).drop_last() =~= before.push(Seq::empty())
            + shorter);
        assert((before.push("."@) + after).drop_last() =~= before.push("."@) + shorter);
        assert((before + after).drop_last() =~= before + shorter);
    }
}

} // verus!

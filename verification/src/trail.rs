//! What is left of a path.
use crate::text::texts;
use vstd::prelude::*;

verus! {

/// The components of a path that are still ahead, at least one.
pub struct Trail {
    parts: Vec<String>,
    index: usize,
}

impl View for Trail {
    type V = Seq<Seq<char>>;

    closed spec fn view(&self) -> Seq<Seq<char>> {
        texts(self.parts@).skip(self.index as int)
    }
}

impl Trail {
    #[verifier::type_invariant]
    spec fn is_ahead(self) -> bool {
        self.index < self.parts@.len()
    }

    /// Sets out on a path, if it has components.
    pub fn start(parts: Vec<String>) -> (trail: Option<Trail>)
        ensures
            match trail {
                Some(inner) => inner@ == texts(parts@) && inner@.len() > 0,
                None => parts@.len() == 0,
            },
    {
        if parts.len() == 0 {
            return None;
        }
        assert(texts(parts@).skip(0) =~= texts(parts@));
        Some(Trail { parts, index: 0 })
    }

    /// The component that comes next.
    pub fn first(&self) -> (name: &str)
        ensures
            self@.len() > 0,
            name@ == self@[0],
    {
        proof {
            use_type_invariant(self);
        }
        self.parts[self.index].as_str()
    }

    /// Leaves the next component behind, if another follows it.
    pub fn advance(self) -> (trail: Option<Trail>)
        ensures
            match trail {
                Some(inner) => self@.len() > 1 && inner@ == self@.skip(1) && inner@.len() > 0,
                None => self@.len() == 1,
            },
    {
        proof {
            use_type_invariant(&self);
        }
        if self.parts.len() - self.index > 1 {
            assert(texts(self.parts@).skip(self.index + 1) =~= texts(self.parts@).skip(
                self.index as int,
            ).skip(1));
            Some(Trail { parts: self.parts, index: self.index + 1 })
        } else {
            None
        }
    }
}

} // verus!

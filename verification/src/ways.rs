//! The ways on which shortcuts are found: the folders that shortcuts have led into before.

use vstd::prelude::*;

verus! {

/// The ids of the folders that shortcuts have led into on the way to a shortcut.
pub struct Way {
    ids: Vec<String>,
}

impl View for Way {
    type V = Seq<Seq<char>>;

    closed spec fn view(&self) -> Seq<Seq<char>> {
        self.ids@.map_values(|id: String| id@)
    }
}

impl Way {
    /// The way to what is found without a shortcut.
    pub fn new() -> (way: Way)
        ensures
            way@ == Seq::<Seq<char>>::empty(),
    {
        let way = Way { ids: Vec::new() };
        assert(way@ =~= Seq::<Seq<char>>::empty());
        way
    }

    /// Whether the way goes through the folder that has this id.
    pub fn has(&self, id: &String) -> (found: bool)
        ensures
            found == self@.contains(id@),
    {
        let mut i: usize = 0;
        while i < self.ids.len()
            invariant
                i <= self.ids@.len(),
                forall|k: int| 0 <= k < i ==> #[trigger] self@[k] != id@,
            decreases self.ids@.len() - i,
        {
            assert(self@[i as int] == self.ids@[i as int]@);
            if self.ids[i] == *id {
                return true;
            }
            i = i + 1;
        }
        false
    }

    /// Copies the way.
    pub fn copy(&self) -> (way: Way)
        ensures
            way@ == self@,
    {
        let mut ids: Vec<String> = Vec::new();
        let mut i: usize = 0;
        while i < self.ids.len()
            invariant
                i <= self.ids@.len(),
                ids@.len() == i,
                forall|k: int| 0 <= k < i ==> (#[trigger] ids@[k])@ == self.ids@[k]@,
            decreases self.ids@.len() - i,
        {
            ids.push(self.ids[i].clone());
            i = i + 1;
        }
        let way = Way { ids };
        assert(way@ =~= self@);
        way
    }

    /// The way that goes on into the folder that has this id.
    pub fn into_folder(&self, id: &String) -> (way: Way)
        ensures
            way@ == self@.push(id@),
    {
        let mut way = self.copy();
        way.ids.push(id.clone());
        assert(way@ =~= self@.push(id@));
        way
    }
}

/// What each of `ways` holds.
pub open spec fn views(ways: Seq<Way>) -> Seq<Seq<Seq<char>>> {
    ways.map_values(|way: Way| way@)
}

/// The first `count` of `ways`, with `way` for each that is missing.
pub open spec fn filled(ways: Seq<Seq<Seq<char>>>, count: nat, way: Seq<Seq<char>>) -> Seq<
    Seq<Seq<char>>,
> {
    Seq::new(
        count,
        |i: int|
            if i < ways.len() {
                ways[i]
            } else {
                way
            },
    )
}

/// Makes `ways` the first `count` of them, with `way` for each that is missing.
pub fn fill(ways: &mut Vec<Way>, count: usize, way: &Way)
    ensures
        views(final(ways)@) == filled(views(old(ways)@), count as nat, way@),
{
    let ghost all = views(ways@);
    while ways.len() > count
        invariant
            ways@.len() <= all.len(),
            forall|i: int| 0 <= i < ways@.len() ==> (#[trigger] ways@[i])@ == all[i],
            ways@.len() < count ==> ways@.len() == all.len(),
        decreases ways@.len(),
    {
        ways.pop();
    }
    let ghost kept = ways@.len();
    while ways.len() < count
        invariant
            kept <= ways@.len() <= count,
            kept <= all.len(),
            kept < count ==> kept == all.len(),
            forall|i: int| 0 <= i < kept ==> (#[trigger] ways@[i])@ == all[i],
            forall|i: int| kept <= i < ways@.len() ==> (#[trigger] ways@[i])@ == way@,
        decreases count - ways@.len(),
    {
        ways.push(way.copy());
    }
    assert(views(ways@) =~= filled(all, count as nat, way@));
}

/// Filling up keeps the ways that there are, in their places, and adds the same way for each
/// that is missing.
pub proof fn law_filling_keeps_the_ways(
    ways: Seq<Seq<Seq<char>>>,
    count: nat,
    way: Seq<Seq<char>>,
    i: int,
)
    requires
        0 <= i < count,
    ensures
        filled(ways, count, way).len() == count,
        i < ways.len() ==> filled(ways, count, way)[i] == ways[i],
        i >= ways.len() ==> filled(ways, count, way)[i] == way,
{
}

} // verus!

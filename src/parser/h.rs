use vstd::prelude::*;

verus! {

/// A section heading: its title and its level (1 for `#`, 2 for `##`, ...).
#[derive(Debug, PartialEq, Eq, Clone)]
pub struct HeadingData {
    pub title: String,
    pub level: u8,
}

impl View for HeadingData {
    type V = (Seq<char>, u8);

    open spec fn view(&self) -> (Seq<char>, u8) {
        (self.title@, self.level)
    }
}

/// The markdown line that writes a heading: `level` hashes, a space, the title.
pub open spec fn heading_line(title: Seq<char>, level: nat) -> Seq<char> {
    Seq::new(level, |i: int| '#') + seq![' '] + title
}

impl HeadingData {
    pub fn new(title: &str, level: u8) -> (r: Self)
        ensures
            r.title@ == title@,
            r.level == level,
    {
        HeadingData { title: title.to_owned(), level }
    }

    /// The heading written back as a markdown line, e.g. `## Title`.
    pub fn to_string(&self) -> (r: String)
        ensures
            r@ == heading_line(self.title@, self.level as nat),
    {
        let mut h = String::new();
        let mut i: u8 = 0;
        while i < self.level
            invariant
                i <= self.level,
                h@ == Seq::new(i as nat, |k: int| '#'),
            decreases self.level - i,
        {
            h.append("#");
            proof {
                reveal_strlit("#");
            }
            i = i + 1;
            assert(h@ =~= Seq::new(i as nat, |k: int| '#'));
        }
        h.append(" ");
        proof {
            reveal_strlit(" ");
        }
        h.append(self.title.as_str());
        assert(h@ =~= heading_line(self.title@, self.level as nat));
        h
    }
}

} // verus!

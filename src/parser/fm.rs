use vstd::prelude::*;

verus! {

/// The metadata block at the top of a document.
#[derive(Debug, PartialEq, Eq, Clone)]
pub struct FileFrontMatter {
    pub id: String,
    pub title: String,
    pub desc: String,
    pub updated: String,
    pub created: String,
    pub tags: Vec<String>,
    pub status: String,
    pub priority: String,
    pub owner: String,
}

impl FileFrontMatter {
    /// Every field empty: what a document without a metadata block gets.
    pub open spec fn is_default(&self) -> bool {
        &&& self.id@.len() == 0
        &&& self.title@.len() == 0
        &&& self.desc@.len() == 0
        &&& self.updated@.len() == 0
        &&& self.created@.len() == 0
        &&& self.tags@.len() == 0
        &&& self.status@.len() == 0
        &&& self.priority@.len() == 0
        &&& self.owner@.len() == 0
    }
}

impl Default for FileFrontMatter {
    fn default() -> (r: Self)
        ensures
            r.is_default(),
    {
        FileFrontMatter {
            id: String::new(),
            title: String::new(),
            desc: String::new(),
            updated: String::new(),
            created: String::new(),
            tags: Vec::new(),
            status: String::new(),
            priority: String::new(),
            owner: String::new(),
        }
    }
}

} // verus!

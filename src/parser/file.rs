use vstd::prelude::*;
use crate::parser::cb::CheckboxData;
use crate::parser::fm::FileFrontMatter;
use crate::parser::h::HeadingData;

verus! {

/// Everything extracted from one document: its metadata, its headings and
/// its checkboxes, the last two in document order.
#[derive(Debug, PartialEq, Eq, Clone)]
pub struct FileData {
    pub front_matter: FileFrontMatter,
    pub headings: Vec<HeadingData>,
    pub check_boxes: Vec<CheckboxData>,
}

impl FileData {
    /// The headings as (title, level) pairs.
    pub open spec fn heading_views(&self) -> Seq<(Seq<char>, u8)> {
        self.headings@.map_values(|h: HeadingData| h@)
    }

    /// The checkboxes as (title, checked) pairs.
    pub open spec fn checkbox_views(&self) -> Seq<(Seq<char>, bool)> {
        self.check_boxes@.map_values(|c: CheckboxData| c@)
    }

    /// The record of a document with nothing in it.
    pub open spec fn is_default(&self) -> bool {
        &&& self.front_matter.is_default()
        &&& self.headings@.len() == 0
        &&& self.check_boxes@.len() == 0
    }

    pub fn new() -> (r: Self)
        ensures
            r.is_default(),
    {
        FileData::default()
    }

    pub fn add_front_matter(&mut self, fm: FileFrontMatter)
        ensures
            final(self).front_matter == fm,
            final(self).headings == old(self).headings,
            final(self).check_boxes == old(self).check_boxes,
    {
        self.front_matter = fm;
    }

    pub fn add_heading(&mut self, title: &str, level: u8)
        ensures
            final(self).heading_views() == old(self).heading_views().push((title@, level)),
            final(self).front_matter == old(self).front_matter,
            final(self).check_boxes == old(self).check_boxes,
    {
        let hd = HeadingData::new(title, level);
        self.headings.push(hd);
        proof {
            assert(self.heading_views() =~= old(self).heading_views().push((title@, level)));
        }
    }

    pub fn add_checkbox(&mut self, title: &str, checked: Option<bool>)
        ensures
            final(self).checkbox_views() == old(self).checkbox_views().push(
                (title@, checked == Some(true)),
            ),
            final(self).front_matter == old(self).front_matter,
            final(self).headings == old(self).headings,
    {
        let cb = CheckboxData::new(title, checked);
        self.check_boxes.push(cb);
        proof {
            assert(self.checkbox_views() =~= old(self).checkbox_views().push(
                (title@, checked == Some(true)),
            ));
        }
    }
}

impl Default for FileData {
    fn default() -> (r: Self)
        ensures
            r.is_default(),
    {
        FileData {
            front_matter: FileFrontMatter::default(),
            headings: Vec::new(),
            check_boxes: Vec::new(),
        }
    }
}

} // verus!

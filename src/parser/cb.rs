use vstd::prelude::*;

verus! {

/// A task-list item: its title and whether it is ticked.
#[derive(Debug, PartialEq, Eq, Clone)]
pub struct CheckboxData {
    pub title: String,
    pub checked: bool,
}

impl View for CheckboxData {
    type V = (Seq<char>, bool);

    open spec fn view(&self) -> (Seq<char>, bool) {
        (self.title@, self.checked)
    }
}

impl Default for CheckboxData {
    fn default() -> (r: Self)
        ensures
            r@ == (Seq::<char>::empty(), false),
    {
        CheckboxData { title: String::new(), checked: false }
    }
}

impl CheckboxData {
    /// A checkbox with the given title; an absent state means unticked.
    pub fn new(title: &str, check: Option<bool>) -> (r: Self)
        ensures
            r.title@ == title@,
            r.checked == (check == Some(true)),
    {
        let checked = match check {
            Some(c) => c,
            None => false,
        };
        CheckboxData { title: title.to_owned(), checked }
    }

    pub fn check(&mut self)
        ensures
            final(self).checked,
            final(self).title == old(self).title,
    {
        self.checked = true;
    }

    pub fn uncheck(&mut self)
        ensures
            !final(self).checked,
            final(self).title == old(self).title,
    {
        self.checked = false;
    }

    pub fn set_title(&mut self, title: &str)
        ensures
            final(self).title@ == title@,
            final(self).checked == old(self).checked,
    {
        self.title = title.to_owned();
    }
}

} // verus!

//! A dialog's state: whether it shows, and the data it edits.
use vstd::prelude::*;

verus! {

#[derive(Debug)]
pub struct Modal<T> {
    pub show_modal: bool,
    pub data: Option<T>,
}

impl<T> Modal<T> {
    /// A hidden dialog over `data`.
    pub fn new(data: T) -> (r: Modal<T>)
        ensures
            !r.show_modal,
            r.data == Some(data),
    {
        Modal { show_modal: false, data: Some(data) }
    }

    /// Shows the dialog; its data stays.
    pub fn show(&mut self)
        ensures
            final(self).show_modal,
            final(self).data == old(self).data,
    {
        self.show_modal = true;
    }

    /// Hides the dialog (closes it); its data stays.
    pub fn close(&mut self)
        ensures
            !final(self).show_modal,
            final(self).data == old(self).data,
    {
        self.show_modal = false;
    }
}

} // verus!

//! The events that request handling publishes for the plugin.

use vstd::prelude::*;

verus! {

/// A notification for the plugin. Immutable once made.
#[derive(Debug, PartialEq, Eq)]
pub enum Event {
    /// A request was forwarded to `url`.
    PageView { url: String },
}

/// An event as a mathematical value.
pub enum EventModel {
    PageView { url: Seq<char> },
}

impl EventModel {
    /// The URL that the event carries.
    pub open spec fn url(self) -> Seq<char> {
        match self {
            EventModel::PageView { url } => url,
        }
    }
}

impl View for Event {
    type V = EventModel;

    open spec fn view(&self) -> EventModel {
        match self {
            Event::PageView { url } => EventModel::PageView { url: url@ },
        }
    }
}

impl Event {
    /// The page-view event for `url`.
    pub fn page_view(url: String) -> (event: Event)
        ensures
            event == (Event::PageView { url }),
    {
        Event::PageView { url }
    }

    /// The URL that the event carries.
    pub fn url(&self) -> (url: &str)
        ensures
            url@ == self@.url(),
    {
        match self {
            Event::PageView { url } => url.as_str(),
        }
    }
}

} // verus!

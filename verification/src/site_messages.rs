//! The application-meaningful contents of an announcement: a site
//! registering its name, or a free-form notification.

use vstd::prelude::*;

verus! {

/// A site announcing its presence under a human-chosen name.
#[derive(Debug)]
pub struct SiteRegistration {
    pub site_name: String,
}

/// A free-form notification; receivers display it but it has no effect on
/// the site directory.
#[derive(Debug)]
pub struct SiteNotification {
    pub notification: String,
}

impl View for SiteRegistration {
    type V = Seq<char>;

    open spec fn view(&self) -> Seq<char> {
        self.site_name@
    }
}

impl View for SiteNotification {
    type V = Seq<char>;

    open spec fn view(&self) -> Seq<char> {
        self.notification@
    }
}

} // verus!

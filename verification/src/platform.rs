//! The operating system tag of a paired device.

use vstd::prelude::*;

verus! {

/// The platform a device runs, with its version: Android and iOS carry a
/// major and minor version number, Windows a build string.
#[derive(Debug)]
pub enum OS {
    Android(u32, u32),
    IOS(u32, u32),
    Windows(String),
}

/// The specification-level image of [`OS`], with the build string abstracted
/// to its character sequence.
pub enum OSView {
    Android(u32, u32),
    IOS(u32, u32),
    Windows(Seq<char>),
}

impl View for OS {
    type V = OSView;

    open spec fn view(&self) -> OSView {
        match self {
            OS::Android(major, minor) => OSView::Android(*major, *minor),
            OS::IOS(major, minor) => OSView::IOS(*major, *minor),
            OS::Windows(build) => OSView::Windows(build@),
        }
    }
}

impl OS {
    /// An owned copy with the same value.
    pub fn duplicate(&self) -> (os: OS)
        ensures
            os@ == self@,
    {
        match self {
            OS::Android(major, minor) => OS::Android(*major, *minor),
            OS::IOS(major, minor) => OS::IOS(*major, *minor),
            OS::Windows(build) => OS::Windows(build.clone()),
        }
    }
}

} // verus!

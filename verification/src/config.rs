//! The expectations a grader declares for a manifest.
//!
//! Every field is optional on its own: an absent field means that the
//! category is not checked at all.

use vstd::prelude::*;
use crate::protocol::opt_text;

verus! {

/// The expected base image.
#[derive(Debug, PartialEq, Eq, Clone)]
pub struct From {
    pub image: String,
    pub tag: Option<String>,
    pub digest: Option<String>,
}

/// View of a [`From`].
pub struct FromView {
    pub image: Seq<char>,
    pub tag: Option<Seq<char>>,
    pub digest: Option<Seq<char>>,
}

impl View for From {
    type V = FromView;

    open spec fn view(&self) -> FromView {
        FromView { image: self.image@, tag: opt_text(self.tag), digest: opt_text(self.digest) }
    }
}

/// An expected exposed port. An absent protocol stands for `tcp`.
#[derive(Debug, PartialEq, Eq, Clone)]
pub struct Port {
    pub number: u16,
    pub protocol: Option<String>,
}

/// View of a [`Port`].
pub struct PortView {
    pub number: u16,
    pub protocol: Option<Seq<char>>,
}

impl View for Port {
    type V = PortView;

    open spec fn view(&self) -> PortView {
        PortView { number: self.number, protocol: opt_text(self.protocol) }
    }
}

/// Everything the grader expects of the manifest.
#[derive(Debug, PartialEq, Eq, Clone)]
pub struct Config {
    pub from: Option<From>,
    pub user: Option<String>,
    pub workdir: Option<String>,
    pub expose: Option<Vec<Port>>,
    pub comments: Option<Vec<String>>,
}

/// View of a [`Config`].
pub struct ConfigView {
    pub from: Option<FromView>,
    pub user: Option<Seq<char>>,
    pub workdir: Option<Seq<char>>,
    pub expose: Option<Seq<PortView>>,
    pub comments: Option<Seq<Seq<char>>>,
}

/// The characters of each string of a list.
pub open spec fn texts(strings: Seq<String>) -> Seq<Seq<char>> {
    strings.map_values(|s: String| s@)
}

/// The views of a list of expected ports.
pub open spec fn ports(list: Seq<Port>) -> Seq<PortView> {
    list.map_values(|p: Port| p@)
}

impl View for Config {
    type V = ConfigView;

    open spec fn view(&self) -> ConfigView {
        ConfigView {
            from: match self.from {
                Some(f) => Some(f@),
                None => None,
            },
            user: opt_text(self.user),
            workdir: opt_text(self.workdir),
            expose: match self.expose {
                Some(list) => Some(ports(list@)),
                None => None,
            },
            comments: match self.comments {
                Some(list) => Some(texts(list@)),
                None => None,
            },
        }
    }
}

} // verus!

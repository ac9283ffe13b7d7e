//! The records of the export schema: page namespaces and the data of pages,
//! revisions and contributors.

use vstd::prelude::*;

verus! {

/// A wiki namespace, as given by the numeric code of a page's `ns` element.
#[derive(Debug, Clone, Copy, PartialEq, Eq, Structural)]
pub enum Namespace {
    /// Can be used to link directly to a file, rather than to the file description page.
    Media,
    /// Pages created by the software on demand, such as Special:RecentChanges.
    Special,
    /// Encyclopedia articles, lists, disambiguation pages and encyclopedia redirects.
    Main,
    /// Discussion of changes to pages.
    Talk,
    /// User pages and other pages created by individual users for their own use.
    User,
    /// Messages for a particular user.
    UserTalk,
    /// Administration pages with information or discussion about the project.
    Wikipedia,
    /// Talk pages for project pages.
    WikipediaTalk,
    /// Description pages of media files.
    File,
    /// Talk pages for file pages.
    FileTalk,
    /// Text displayed in certain places in the interface.
    MediaWiki,
    /// Talk pages for interface pages.
    MediaWikiTalk,
    /// Templates: markup intended for inclusion on multiple pages.
    Template,
    /// Talk pages for templates.
    TemplateTalk,
    /// How-to and information pages whose titles begin with Help:.
    Help,
    /// Talk pages for help pages.
    HelpTalk,
    /// Category pages listing the pages added to a category.
    Category,
    /// Talk pages for categories.
    CategoryTalk,
    /// Enhanced main pages for broad subjects.
    Portal,
    /// Talk pages for portals.
    PortalTalk,
    /// Articles being created and developed for a limited time.
    Draft,
    /// Talk pages for drafts.
    DraftTalk,
    /// Timed text of audio and video files.
    TimedText,
    /// Talk pages for timed text.
    TimedTextTalk,
    /// Lua source code.
    Module,
    /// Talk pages for modules.
    ModuleTalk,
    /// Deprecated: scripts and style snippets enabled from user preferences.
    Gadget,
    /// Deprecated: talk pages for gadgets.
    GadgetTalk,
    /// Deprecated: definitions of gadgets.
    GadgetDefinition,
    /// Deprecated: talk pages for gadget definitions.
    GadgetDefinitionTalk,
    /// A code that none of the other variants stands for.
    Unknown,
}

/// The namespace that a known code stands for.
pub open spec fn namespace_of(code: int) -> Option<Namespace> {
    if code == -2 {
        Some(Namespace::Media)
    } else if code == -1 {
        Some(Namespace::Special)
    } else if code == 0 {
        Some(Namespace::Main)
    } else if code == 1 {
        Some(Namespace::Talk)
    } else if code == 2 {
        Some(Namespace::User)
    } else if code == 3 {
        Some(Namespace::UserTalk)
    } else if code == 4 {
        Some(Namespace::Wikipedia)
    } else if code == 5 {
        Some(Namespace::WikipediaTalk)
    } else if code == 6 {
        Some(Namespace::File)
    } else if code == 7 {
        Some(Namespace::FileTalk)
    } else if code == 8 {
        Some(Namespace::MediaWiki)
    } else if code == 9 {
        Some(Namespace::MediaWikiTalk)
    } else if code == 10 {
        Some(Namespace::Template)
    } else if code == 11 {
        Some(Namespace::TemplateTalk)
    } else if code == 12 {
        Some(Namespace::Help)
    } else if code == 13 {
        Some(Namespace::HelpTalk)
    } else if code == 14 {
        Some(Namespace::Category)
    } else if code == 15 {
        Some(Namespace::CategoryTalk)
    } else if code == 100 {
        Some(Namespace::Portal)
    } else if code == 101 {
        Some(Namespace::PortalTalk)
    } else if code == 118 {
        Some(Namespace::Draft)
    } else if code == 119 {
        Some(Namespace::DraftTalk)
    } else if code == 710 {
        Some(Namespace::TimedText)
    } else if code == 711 {
        Some(Namespace::TimedTextTalk)
    } else if code == 828 {
        Some(Namespace::Module)
    } else if code == 829 {
        Some(Namespace::ModuleTalk)
    } else if code == 2300 {
        Some(Namespace::Gadget)
    } else if code == 2301 {
        Some(Namespace::GadgetTalk)
    } else if code == 2302 {
        Some(Namespace::GadgetDefinition)
    } else if code == 2303 {
        Some(Namespace::GadgetDefinitionTalk)
    } else {
        None
    }
}

/// The code of a namespace; `Unknown` has the code -999, which stands for no namespace.
pub open spec fn code_of(ns: Namespace) -> int {
    match ns {
        Namespace::Media => -2,
        Namespace::Special => -1,
        Namespace::Main => 0,
        Namespace::Talk => 1,
        Namespace::User => 2,
        Namespace::UserTalk => 3,
        Namespace::Wikipedia => 4,
        Namespace::WikipediaTalk => 5,
        Namespace::File => 6,
        Namespace::FileTalk => 7,
        Namespace::MediaWiki => 8,
        Namespace::MediaWikiTalk => 9,
        Namespace::Template => 10,
        Namespace::TemplateTalk => 11,
        Namespace::Help => 12,
        Namespace::HelpTalk => 13,
        Namespace::Category => 14,
        Namespace::CategoryTalk => 15,
        Namespace::Portal => 100,
        Namespace::PortalTalk => 101,
        Namespace::Draft => 118,
        Namespace::DraftTalk => 119,
        Namespace::TimedText => 710,
        Namespace::TimedTextTalk => 711,
        Namespace::Module => 828,
        Namespace::ModuleTalk => 829,
        Namespace::Gadget => 2300,
        Namespace::GadgetTalk => 2301,
        Namespace::GadgetDefinition => 2302,
        Namespace::GadgetDefinitionTalk => 2303,
        Namespace::Unknown => -999,
    }
}

impl Namespace {
    /// The namespace of a known code, `None` for any other code.
    pub fn from_i32(id: i32) -> (r: Option<Namespace>)
        ensures
            r == namespace_of(id as int),
    {
        match id {
            -2 => Some(Namespace::Media),
            -1 => Some(Namespace::Special),
            0 => Some(Namespace::Main),
            1 => Some(Namespace::Talk),
            2 => Some(Namespace::User),
            3 => Some(Namespace::UserTalk),
            4 => Some(Namespace::Wikipedia),
            5 => Some(Namespace::WikipediaTalk),
            6 => Some(Namespace::File),
            7 => Some(Namespace::FileTalk),
            8 => Some(Namespace::MediaWiki),
            9 => Some(Namespace::MediaWikiTalk),
            10 => Some(Namespace::Template),
            11 => Some(Namespace::TemplateTalk),
            12 => Some(Namespace::Help),
            13 => Some(Namespace::HelpTalk),
            14 => Some(Namespace::Category),
            15 => Some(Namespace::CategoryTalk),
            100 => Some(Namespace::Portal),
            101 => Some(Namespace::PortalTalk),
            118 => Some(Namespace::Draft),
            119 => Some(Namespace::DraftTalk),
            710 => Some(Namespace::TimedText),
            711 => Some(Namespace::TimedTextTalk),
            828 => Some(Namespace::Module),
            829 => Some(Namespace::ModuleTalk),
            2300 => Some(Namespace::Gadget),
            2301 => Some(Namespace::GadgetTalk),
            2302 => Some(Namespace::GadgetDefinition),
            2303 => Some(Namespace::GadgetDefinitionTalk),
            _ => None,
        }
    }

    /// The numeric code of this namespace.
    pub fn to_int(&self) -> (r: i32)
        ensures
            r as int == code_of(*self),
    {
        match self {
            Namespace::Media => -2,
            Namespace::Special => -1,
            Namespace::Main => 0,
            Namespace::Talk => 1,
            Namespace::User => 2,
            Namespace::UserTalk => 3,
            Namespace::Wikipedia => 4,
            Namespace::WikipediaTalk => 5,
            Namespace::File => 6,
            Namespace::FileTalk => 7,
            Namespace::MediaWiki => 8,
            Namespace::MediaWikiTalk => 9,
            Namespace::Template => 10,
            Namespace::TemplateTalk => 11,
            Namespace::Help => 12,
            Namespace::HelpTalk => 13,
            Namespace::Category => 14,
            Namespace::CategoryTalk => 15,
            Namespace::Portal => 100,
            Namespace::PortalTalk => 101,
            Namespace::Draft => 118,
            Namespace::DraftTalk => 119,
            Namespace::TimedText => 710,
            Namespace::TimedTextTalk => 711,
            Namespace::Module => 828,
            Namespace::ModuleTalk => 829,
            Namespace::Gadget => 2300,
            Namespace::GadgetTalk => 2301,
            Namespace::GadgetDefinition => 2302,
            Namespace::GadgetDefinitionTalk => 2303,
            Namespace::Unknown => -999,
        }
    }
}

/// The namespace of a code, `Unknown` where no namespace has it.
pub open spec fn namespace_or_unknown(code: int) -> Namespace {
    match namespace_of(code) {
        Some(ns) => ns,
        None => Namespace::Unknown,
    }
}

impl From<i32> for Namespace {
    fn from(id: i32) -> (r: Namespace) {
        match Namespace::from_i32(id) {
            Some(ns) => ns,
            None => Namespace::Unknown,
        }
    }
}

impl vstd::std_specs::convert::FromSpecImpl<i32> for Namespace {
    open spec fn obeys_from_spec() -> bool {
        true
    }

    open spec fn from_spec(id: i32) -> Namespace {
        namespace_or_unknown(id as int)
    }
}

/// The target of a redirect page.
#[derive(Debug)]
pub struct Redirect {
    pub title: String,
}

/// A page with all of its revisions.
#[derive(Debug)]
pub struct Page {
    pub title: String,
    pub ns: Namespace,
    pub id: u32,
    pub revisions: Vec<Revision>,
    pub redirect: Option<()>,
}

/// The author of a revision: a registered user or an address.
#[derive(Debug)]
pub struct Contributer {
    pub username: Option<String>,
    pub ip: Option<String>,
    pub id: Option<u32>,
}

/// The mark of a minor revision.
#[derive(Debug)]
pub struct Minor;

/// The text of a revision, with its length in bytes.
#[derive(Debug)]
pub struct Text {
    pub bytes: i32,
    pub text: Option<String>,
}

/// One revision of a page.
#[derive(Debug)]
pub struct Revision {
    pub id: u32,
    pub parentid: Option<u32>,
    pub timestamp: String,
    pub contributor: Contributer,
    pub minor: Option<Minor>,
    pub comment: Option<String>,
    pub model: String,
    pub format: String,
    pub sha1: String,
    pub text: Text,
}

} // verus!

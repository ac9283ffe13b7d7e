//! The extraction state machine: it takes the events of a dump one at a time
//! and hands out each page once the page's end tag has been read.

use vstd::prelude::*;

use crate::decimal::{decimal_i32, parse_i32};
use crate::event::{
    format_name, is_element, model_name, ns_name, opens, opt_view, page_name, revision_name,
    root_name, text_name, title_name, EventView, XmlEvent,
};
use crate::schema::{namespace_of, Namespace};

verus! {

/// A page of the dump with the data of its single revision.
#[derive(Debug)]
pub struct Page {
    /// The content of the revision's `format` element, `None` where it has none.
    pub format: Option<String>,
    /// The content of the revision's `model` element, `None` where it has none.
    pub model: Option<String>,
    /// The namespace whose code is the content of the page's `ns` element.
    pub namespace: Namespace,
    /// The content of the revision's `text` element.
    pub text: String,
    /// The content of the page's `title` element.
    pub title: String,
}

pub struct PageView {
    pub format: Option<Seq<char>>,
    pub model: Option<Seq<char>>,
    pub namespace: Namespace,
    pub text: Seq<char>,
    pub title: Seq<char>,
}

impl View for Page {
    type V = PageView;

    open spec fn view(&self) -> PageView {
        PageView {
            format: opt_view(self.format),
            model: opt_view(self.model),
            namespace: self.namespace,
            text: self.text@,
            title: self.title@,
        }
    }
}

/// Why a page could not be produced.
#[derive(Debug)]
pub enum Error {
    /// The document does not have the expected shape at this byte offset.
    Format(usize),
    /// The document uses a feature that is not supported (a second revision
    /// of a page, an unknown namespace code), at this byte offset.
    NotSupported(usize),
    /// The XML reader failed, with the reader's own message.
    XmlReader(String),
}

/// The element whose children are being read.
#[derive(Debug, Clone, Copy, PartialEq, Eq, Structural)]
pub enum Level {
    Root,
    Page,
    Revision,
}

/// An element whose text content is extracted.
#[derive(Debug, Clone, Copy, PartialEq, Eq, Structural)]
pub enum Field {
    Ns,
    Title,
    Format,
    Model,
    Text,
}

/// Where in the document the parser stands.
#[derive(Debug, Clone, Copy, PartialEq, Eq, Structural)]
pub enum Mode {
    /// The root element has not been seen yet.
    Prolog,
    /// Among the children of an element.
    Within(Level),
    /// Inside an element whose content is ignored, `depth` elements deep
    /// below it; at its end tag the parser goes back to `back`.
    Skipping { back: Level, depth: usize },
    /// Just after the start tag of a field.
    FieldOpen(Field),
    /// After the text of a field, where its end tag must follow.
    FieldClose(Field),
    /// The root has been closed, or an error has been reported.
    Done,
}

/// The element that a field belongs to.
pub open spec fn level_of(f: Field) -> Level {
    match f {
        Field::Ns | Field::Title => Level::Page,
        _ => Level::Revision,
    }
}

/// What one event brings about.
#[derive(Debug)]
pub enum Outcome {
    /// Nothing yet: more events are needed.
    More,
    /// A complete page.
    Emit(Page),
    /// The end of the sequence of pages.
    Finished,
    /// The document is not a dump that can be read.
    Failed(Error),
}

pub enum OutcomeView {
    More,
    Emit(PageView),
    Finished,
    Format(usize),
    NotSupported(usize),
    Reader,
}

impl View for Outcome {
    type V = OutcomeView;

    open spec fn view(&self) -> OutcomeView {
        match self {
            Outcome::More => OutcomeView::More,
            Outcome::Emit(p) => OutcomeView::Emit(p@),
            Outcome::Finished => OutcomeView::Finished,
            Outcome::Failed(Error::Format(pos)) => OutcomeView::Format(*pos),
            Outcome::Failed(Error::NotSupported(pos)) => OutcomeView::NotSupported(*pos),
            Outcome::Failed(Error::XmlReader(_)) => OutcomeView::Reader,
        }
    }
}

/// The state of a parser: where it stands and the fields of the current page
/// read so far (`ns_text` holds the text of the `ns` element until its end tag).
pub struct ParserView {
    pub mode: Mode,
    pub namespace: Option<Namespace>,
    pub ns_text: Seq<char>,
    pub title: Option<Seq<char>>,
    pub text: Option<Seq<char>>,
    pub format: Option<Seq<char>>,
    pub model: Option<Seq<char>>,
}

/// A state in `mode` with no field of a page read.
pub open spec fn empty_state(mode: Mode) -> ParserView {
    ParserView {
        mode,
        namespace: None,
        ns_text: Seq::empty(),
        title: None,
        text: None,
        format: None,
        model: None,
    }
}

pub open spec fn with_mode(s: ParserView, mode: Mode) -> ParserView {
    ParserView { mode, ..s }
}

/// An error ends the sequence.
pub open spec fn fail(s: ParserView, o: OutcomeView) -> (ParserView, OutcomeView) {
    (with_mode(s, Mode::Done), o)
}

pub open spec fn filled(s: ParserView, f: Field) -> bool {
    match f {
        Field::Ns => s.namespace is Some,
        Field::Title => s.title is Some,
        Field::Format => s.format is Some,
        Field::Model => s.model is Some,
        Field::Text => s.text is Some,
    }
}

/// The text of a field put in its slot.
pub open spec fn store(s: ParserView, f: Field, t: Seq<char>) -> ParserView {
    match f {
        Field::Ns => ParserView { ns_text: t, ..s },
        Field::Title => ParserView { title: Some(t), ..s },
        Field::Format => ParserView { format: Some(t), ..s },
        Field::Model => ParserView { model: Some(t), ..s },
        Field::Text => ParserView { text: Some(t), ..s },
    }
}

/// The end tag of a field: the `ns` text must be the code of a known namespace.
pub open spec fn close(s: ParserView, f: Field, pos: usize) -> (ParserView, OutcomeView) {
    match f {
        Field::Ns => match decimal_i32(s.ns_text) {
            None => fail(s, OutcomeView::Format(pos)),
            Some(v) => match namespace_of(v as int) {
                None => fail(s, OutcomeView::NotSupported(pos)),
                Some(n) => (ParserView { mode: Mode::Within(Level::Page), namespace: Some(n), ..s }, OutcomeView::More),
            },
        },
        _ => (with_mode(s, Mode::Within(level_of(f))), OutcomeView::More),
    }
}

/// The field, if any, that a start tag opens among the children of `level`.
pub open spec fn field_named(level: Level, e: EventView) -> Option<Field> {
    match level {
        Level::Page => if opens(e, ns_name()) {
            Some(Field::Ns)
        } else if opens(e, title_name()) {
            Some(Field::Title)
        } else {
            None
        },
        Level::Revision => if opens(e, format_name()) {
            Some(Field::Format)
        } else if opens(e, model_name()) {
            Some(Field::Model)
        } else if opens(e, text_name()) {
            Some(Field::Text)
        } else {
            None
        },
        Level::Root => None,
    }
}

/// The page whose fields are all read.
pub open spec fn page_of(s: ParserView) -> PageView {
    PageView {
        format: s.format,
        model: s.model,
        namespace: s.namespace->Some_0,
        text: s.text->Some_0,
        title: s.title->Some_0,
    }
}

/// The state that follows `s` on the event `e` read at byte offset `pos`,
/// and what the event brings about.
pub open spec fn step_spec(s: ParserView, e: EventView, pos: usize) -> (ParserView, OutcomeView) {
    match s.mode {
        Mode::Done => (s, OutcomeView::Finished),
        Mode::Prolog => match e {
            EventView::Start { .. } => if opens(e, root_name()) {
                (with_mode(s, Mode::Within(Level::Root)), OutcomeView::More)
            } else {
                fail(s, OutcomeView::Format(pos))
            },
            EventView::Eof => fail(s, OutcomeView::Format(pos)),
            _ => (s, OutcomeView::More),
        },
        Mode::Within(level) => match e {
            EventView::End => match level {
                Level::Root => (with_mode(s, Mode::Done), OutcomeView::Finished),
                Level::Page => if s.namespace is Some && s.title is Some && s.text is Some {
                    (empty_state(Mode::Within(Level::Root)), OutcomeView::Emit(page_of(s)))
                } else {
                    fail(s, OutcomeView::Format(pos))
                },
                Level::Revision => if s.text is Some {
                    (with_mode(s, Mode::Within(Level::Page)), OutcomeView::More)
                } else {
                    fail(s, OutcomeView::Format(pos))
                },
            },
            EventView::Start { .. } => if level == Level::Root && opens(e, page_name()) {
                (empty_state(Mode::Within(Level::Page)), OutcomeView::More)
            } else if level == Level::Page && opens(e, revision_name()) {
                if s.text is Some {
                    fail(s, OutcomeView::NotSupported(pos))
                } else {
                    (with_mode(s, Mode::Within(Level::Revision)), OutcomeView::More)
                }
            } else {
                match field_named(level, e) {
                    Some(f) => if filled(s, f) {
                        fail(s, OutcomeView::Format(pos))
                    } else {
                        (with_mode(s, Mode::FieldOpen(f)), OutcomeView::More)
                    },
                    None => (with_mode(s, Mode::Skipping { back: level, depth: 0 }), OutcomeView::More),
                }
            },
            EventView::Eof => fail(s, OutcomeView::Format(pos)),
            _ => (s, OutcomeView::More),
        },
        Mode::Skipping { back, depth } => match e {
            EventView::End => if depth == 0 {
                (with_mode(s, Mode::Within(back)), OutcomeView::More)
            } else {
                (with_mode(s, Mode::Skipping { back, depth: (depth - 1) as usize }), OutcomeView::More)
            },
            EventView::Start { .. } => if depth == usize::MAX {
                fail(s, OutcomeView::NotSupported(pos))
            } else {
                (with_mode(s, Mode::Skipping { back, depth: (depth + 1) as usize }), OutcomeView::More)
            },
            EventView::Eof => fail(s, OutcomeView::Format(pos)),
            _ => (s, OutcomeView::More),
        },
        Mode::FieldOpen(f) => match e {
            EventView::Text(t) => (with_mode(store(s, f, t), Mode::FieldClose(f)), OutcomeView::More),
            EventView::End => close(store(s, f, Seq::empty()), f, pos),
            _ => fail(s, OutcomeView::Format(pos)),
        },
        Mode::FieldClose(f) => match e {
            EventView::End => close(s, f, pos),
            _ => fail(s, OutcomeView::Format(pos)),
        },
    }
}

/// A parser of a dump, fed one event at a time.
pub struct DumpParser {
    mode: Mode,
    namespace: Option<Namespace>,
    ns_text: String,
    title: Option<String>,
    text: Option<String>,
    format: Option<String>,
    model: Option<String>,
}

impl View for DumpParser {
    type V = ParserView;

    closed spec fn view(&self) -> ParserView {
        ParserView {
            mode: self.mode,
            namespace: self.namespace,
            ns_text: self.ns_text@,
            title: opt_view(self.title),
            text: opt_view(self.text),
            format: opt_view(self.format),
            model: opt_view(self.model),
        }
    }
}

impl DumpParser {
    /// A parser before the first event of a document.
    pub fn new() -> (r: DumpParser)
        ensures
            r@ == empty_state(Mode::Prolog),
    {
        DumpParser {
            mode: Mode::Prolog,
            namespace: None,
            ns_text: String::new(),
            title: None,
            text: None,
            format: None,
            model: None,
        }
    }

    /// Where the parser stands.
    pub fn mode(&self) -> (r: Mode)
        ensures
            r == self@.mode,
    {
        self.mode
    }

    /// Ends the sequence, as after an error that the reader reported.
    pub fn halt(&mut self)
        ensures
            final(self)@ == with_mode(old(self)@, Mode::Done),
    {
        self.mode = Mode::Done;
    }

    fn clear(&mut self, mode: Mode)
        ensures
            final(self)@ == empty_state(mode),
    {
        self.mode = mode;
        self.namespace = None;
        self.ns_text = String::new();
        self.title = None;
        self.text = None;
        self.format = None;
        self.model = None;
    }

    fn fail(&mut self, error: Error) -> (r: Outcome)
        ensures
            (final(self)@, r@) == fail(old(self)@, Outcome::Failed(error)@),
    {
        self.mode = Mode::Done;
        Outcome::Failed(error)
    }

    fn is_filled(&self, f: Field) -> (r: bool)
        ensures
            r == filled(self@, f),
    {
        match f {
            Field::Ns => self.namespace.is_some(),
            Field::Title => self.title.is_some(),
            Field::Format => self.format.is_some(),
            Field::Model => self.model.is_some(),
            Field::Text => self.text.is_some(),
        }
    }

    fn store(&mut self, f: Field, t: String)
        ensures
            final(self)@ == store(old(self)@, f, t@),
    {
        match f {
            Field::Ns => self.ns_text = t,
            Field::Title => self.title = Some(t),
            Field::Format => self.format = Some(t),
            Field::Model => self.model = Some(t),
            Field::Text => self.text = Some(t),
        }
    }

    fn close(&mut self, f: Field, pos: usize) -> (r: Outcome)
        ensures
            (final(self)@, r@) == close(old(self)@, f, pos),
    {
        match f {
            Field::Ns => match parse_i32(self.ns_text.as_str()) {
                None => self.fail(Error::Format(pos)),
                Some(v) => match Namespace::from_i32(v) {
                    None => self.fail(Error::NotSupported(pos)),
                    Some(n) => {
                        self.namespace = Some(n);
                        self.mode = Mode::Within(Level::Page);
                        Outcome::More
                    },
                },
            },
            Field::Title => {
                self.mode = Mode::Within(Level::Page);
                Outcome::More
            },
            _ => {
                self.mode = Mode::Within(Level::Revision);
                Outcome::More
            },
        }
    }

    fn field_named(level: Level, namespace: &Option<String>, local_name: &String) -> (r: Option<
        Field,
    >)
        ensures
            r == field_named(level, EventView::Start { namespace: opt_view(*namespace), local_name: local_name@ }),
    {
        match level {
            Level::Page => if is_element(namespace, local_name, "ns") {
                Some(Field::Ns)
            } else if is_element(namespace, local_name, "title") {
                Some(Field::Title)
            } else {
                None
            },
            Level::Revision => if is_element(namespace, local_name, "format") {
                Some(Field::Format)
            } else if is_element(namespace, local_name, "model") {
                Some(Field::Model)
            } else if is_element(namespace, local_name, "text") {
                Some(Field::Text)
            } else {
                None
            },
            Level::Root => None,
        }
    }

    fn emit(&mut self) -> (r: Outcome)
        requires
            old(self)@.namespace is Some,
            old(self)@.title is Some,
            old(self)@.text is Some,
        ensures
            final(self)@ == empty_state(Mode::Within(Level::Root)),
            r@ == OutcomeView::Emit(page_of(old(self)@)),
    {
        let page = Page {
            format: self.format.take(),
            model: self.model.take(),
            namespace: self.namespace.unwrap(),
            text: self.text.take().unwrap(),
            title: self.title.take().unwrap(),
        };
        self.clear(Mode::Within(Level::Root));
        Outcome::Emit(page)
    }

    /// Takes the event `event`, read at byte offset `position`.
    pub fn step(&mut self, event: XmlEvent, position: usize) -> (r: Outcome)
        ensures
            (final(self)@, r@) == step_spec(old(self)@, event@, position),
    {
        match self.mode {
            Mode::Done => Outcome::Finished,
            Mode::Prolog => match event {
                XmlEvent::Start { namespace, local_name } => if is_element(&namespace, &local_name, "mediawiki") {
                    self.mode = Mode::Within(Level::Root);
                    Outcome::More
                } else {
                    self.fail(Error::Format(position))
                },
                XmlEvent::Eof => self.fail(Error::Format(position)),
                _ => Outcome::More,
            },
            Mode::Within(level) => match event {
                XmlEvent::End => match level {
                    Level::Root => {
                        self.mode = Mode::Done;
                        Outcome::Finished
                    },
                    Level::Page => if self.namespace.is_some() && self.title.is_some() && self.text.is_some() {
                        self.emit()
                    } else {
                        self.fail(Error::Format(position))
                    },
                    Level::Revision => if self.text.is_some() {
                        self.mode = Mode::Within(Level::Page);
                        Outcome::More
                    } else {
                        self.fail(Error::Format(position))
                    },
                },
                XmlEvent::Start { namespace, local_name } => {
                    if level == Level::Root && is_element(&namespace, &local_name, "page") {
                        self.clear(Mode::Within(Level::Page));
                        Outcome::More
                    } else if level == Level::Page && is_element(&namespace, &local_name, "revision") {
                        if self.text.is_some() {
                            self.fail(Error::NotSupported(position))
                        } else {
                            self.mode = Mode::Within(Level::Revision);
                            Outcome::More
                        }
                    } else {
                        match DumpParser::field_named(level, &namespace, &local_name) {
                            Some(f) => if self.is_filled(f) {
                                self.fail(Error::Format(position))
                            } else {
                                self.mode = Mode::FieldOpen(f);
                                Outcome::More
                            },
                            None => {
                                self.mode = Mode::Skipping { back: level, depth: 0 };
                                Outcome::More
                            },
                        }
                    }
                },
                XmlEvent::Eof => self.fail(Error::Format(position)),
                _ => Outcome::More,
            },
            Mode::Skipping { back, depth } => match event {
                XmlEvent::End => {
                    if depth == 0 {
                        self.mode = Mode::Within(back);
                    } else {
                        self.mode = Mode::Skipping { back, depth: depth - 1 };
                    }
                    Outcome::More
                },
                XmlEvent::Start { .. } => if depth == usize::MAX {
                    self.fail(Error::NotSupported(position))
                } else {
                    self.mode = Mode::Skipping { back, depth: depth + 1 };
                    Outcome::More
                },
                XmlEvent::Eof => self.fail(Error::Format(position)),
                _ => Outcome::More,
            },
            Mode::FieldOpen(f) => match event {
                XmlEvent::Text(t) => {
                    self.store(f, t);
                    self.mode = Mode::FieldClose(f);
                    Outcome::More
                },
                XmlEvent::End => {
                    self.store(f, String::new());
                    self.close(f, position)
                },
                _ => self.fail(Error::Format(position)),
            },
            Mode::FieldClose(f) => match event {
                XmlEvent::End => self.close(f, position),
                _ => self.fail(Error::Format(position)),
            },
        }
    }
}

} // verus!

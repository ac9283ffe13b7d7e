//! What a parser does over whole sequences of events.

use vstd::prelude::*;

use crate::decimal::decimal_i32;
use crate::event::{
    export_namespace, format_name, model_name, ns_name, page_name, revision_name, root_name,
    text_name, title_name, EventView,
};
use crate::event::opens;
use crate::event::XmlEvent;
use crate::parser::{
    DumpParser, Outcome, empty_state, field_named, filled, page_of, level_of, step_spec, store, with_mode, Field, Level, Mode,
    OutcomeView, PageView, ParserView,
};
use crate::schema::namespace_of;

verus! {

/// The state after the events `evs`, each with its byte offset, and what they
/// brought about other than `More`, in order.
pub open spec fn run(s: ParserView, evs: Seq<(EventView, usize)>) -> (ParserView, Seq<OutcomeView>)
    decreases evs.len(),
{
    if evs.len() == 0 {
        (s, Seq::empty())
    } else {
        let (s1, o) = step_spec(s, evs[0].0, evs[0].1);
        let (s2, os) = run(s1, evs.drop_first());
        (s2, if o is More { os } else { seq![o] + os })
    }
}

pub open spec fn events_of(evs: Seq<(EventView, usize)>) -> Seq<EventView> {
    evs.map_values(|x: (EventView, usize)| x.0)
}

/// Running over two sequences in turn is running over the two together.
pub proof fn lemma_run_concat(s: ParserView, a: Seq<(EventView, usize)>, b: Seq<(EventView, usize)>)
    ensures
        run(s, a + b) == (run(run(s, a).0, b).0, run(s, a).1 + run(run(s, a).0, b).1),
    decreases a.len(),
{
    if a.len() == 0 {
        assert(a + b == b);
        assert(run(s, a).1 + run(run(s, a).0, b).1 == run(run(s, a).0, b).1);
    } else {
        let s1 = step_spec(s, a[0].0, a[0].1).0;
        assert((a + b).drop_first() == a.drop_first() + b);
        lemma_run_concat(s1, a.drop_first(), b);
        let o = step_spec(s, a[0].0, a[0].1).1;
        if !(o is More) {
            assert(seq![o] + run(s1, a.drop_first()).1 + run(run(s1, a.drop_first()).0, b).1
                == seq![o] + (run(s1, a.drop_first()).1 + run(run(s1, a.drop_first()).0, b).1));
        }
    }
}

/// Splits a run at the `n`th event.
proof fn lemma_run_split(s: ParserView, evs: Seq<(EventView, usize)>, n: int)
    requires
        0 <= n <= evs.len(),
    ensures
        run(s, evs) == (
            run(run(s, evs.take(n)).0, evs.skip(n)).0,
            run(s, evs.take(n)).1 + run(run(s, evs.take(n)).0, evs.skip(n)).1,
        ),
        events_of(evs.take(n)) == events_of(evs).take(n),
        events_of(evs.skip(n)) == events_of(evs).skip(n),
{
    assert(evs == evs.take(n) + evs.skip(n));
    lemma_run_concat(s, evs.take(n), evs.skip(n));
    assert(events_of(evs.take(n)) =~= events_of(evs).take(n));
    assert(events_of(evs.skip(n)) =~= events_of(evs).skip(n));
}

proof fn lemma_events_sub(evs: Seq<(EventView, usize)>, i: int, j: int)
    requires
        0 <= i <= j <= evs.len(),
    ensures
        events_of(evs.subrange(i, j)) == events_of(evs).subrange(i, j),
{
    assert(events_of(evs.subrange(i, j)) =~= events_of(evs).subrange(i, j));
}

/// The start tag of the element `name` of the export namespace.
pub open spec fn start_of(name: Seq<char>) -> EventView {
    EventView::Start { namespace: Some(export_namespace()), local_name: name }
}

/// The events of an element `name` whose content is the text `t`.
pub open spec fn leaf(name: Seq<char>, t: Seq<char>) -> Seq<EventView> {
    seq![start_of(name), EventView::Text(t), EventView::End]
}

pub open spec fn optional_leaf(name: Seq<char>, o: Option<Seq<char>>) -> Seq<EventView> {
    match o {
        Some(t) => leaf(name, t),
        None => Seq::empty(),
    }
}

/// The content of a `page` element of a dump: the texts of its fields.
pub struct PageSource {
    pub ns_text: Seq<char>,
    pub title: Seq<char>,
    pub format: Option<Seq<char>>,
    pub model: Option<Seq<char>>,
    pub text: Seq<char>,
}

pub open spec fn revision_events(p: PageSource) -> Seq<EventView> {
    seq![start_of(revision_name())] + optional_leaf(format_name(), p.format) + optional_leaf(
        model_name(),
        p.model,
    ) + leaf(text_name(), p.text) + seq![EventView::End]
}

pub open spec fn page_events(p: PageSource) -> Seq<EventView> {
    seq![start_of(page_name())] + leaf(ns_name(), p.ns_text) + leaf(title_name(), p.title)
        + revision_events(p) + seq![EventView::End]
}

pub open spec fn pages_events(ps: Seq<PageSource>) -> Seq<EventView>
    decreases ps.len(),
{
    if ps.len() == 0 {
        Seq::empty()
    } else {
        page_events(ps[0]) + pages_events(ps.drop_first())
    }
}

/// The events of a dump whose pages are `ps`, each with one revision.
pub open spec fn dump_events(ps: Seq<PageSource>) -> Seq<EventView> {
    seq![start_of(root_name())] + pages_events(ps) + seq![EventView::End]
}

/// The `ns` text of the page is the code of a known namespace.
pub open spec fn well_formed(p: PageSource) -> bool {
    match decimal_i32(p.ns_text) {
        Some(v) => namespace_of(v as int) is Some,
        None => false,
    }
}

/// The page record that a well-formed page source stands for.
pub open spec fn page_from(p: PageSource) -> PageView {
    PageView {
        format: p.format,
        model: p.model,
        namespace: namespace_of(decimal_i32(p.ns_text)->Some_0 as int)->Some_0,
        text: p.text,
        title: p.title,
    }
}

pub open spec fn emitted(ps: Seq<PageSource>) -> Seq<OutcomeView> {
    ps.map_values(|p: PageSource| OutcomeView::Emit(page_from(p)))
}

proof fn lemma_names()
    ensures
        ns_name() != title_name(),
        ns_name() != revision_name(),
        title_name() != revision_name(),
        format_name() != model_name(),
        format_name() != text_name(),
        model_name() != text_name(),
        format_name() != revision_name(),
        model_name() != revision_name(),
        text_name() != revision_name(),
{
    reveal_strlit("ns");
    reveal_strlit("title");
    reveal_strlit("revision");
    reveal_strlit("format");
    reveal_strlit("model");
    reveal_strlit("text");
    assert(ns_name().len() == 2);
    assert(title_name().len() == 5);
    assert(revision_name().len() == 8);
    assert(format_name().len() == 6);
    assert(model_name().len() == 5);
    assert(text_name().len() == 4);
}

/// The start tag of a field among the children of its element opens it.
proof fn lemma_field_named(f: Field, name: Seq<char>)
    requires
        name == match f {
            Field::Ns => ns_name(),
            Field::Title => title_name(),
            Field::Format => format_name(),
            Field::Model => model_name(),
            Field::Text => text_name(),
        },
    ensures
        field_named(level_of(f), start_of(name)) == Some(f),
        !opens(start_of(name), revision_name()),
{
    lemma_names();
}

/// A text field that has not been read yet is read from its element.
proof fn lemma_leaf(s: ParserView, f: Field, name: Seq<char>, t: Seq<char>, evs: Seq<(EventView, usize)>)
    requires
        f != Field::Ns,
        s.mode == Mode::Within(level_of(f)),
        !filled(s, f),
        field_named(level_of(f), start_of(name)) == Some(f),
        !opens(start_of(name), revision_name()),
        events_of(evs) == leaf(name, t),
    ensures
        run(s, evs) == (with_mode(store(s, f, t), Mode::Within(level_of(f))), Seq::<OutcomeView>::empty()),
{
    reveal_with_fuel(run, 4);
    assert(leaf(name, t).len() == 3);
    assert(events_of(evs).len() == evs.len());
    assert(evs.len() == 3);
    assert(evs[0].0 == events_of(evs)[0]);
    assert(evs[1].0 == events_of(evs)[1]);
    assert(evs[2].0 == events_of(evs)[2]);
    assert(evs.drop_first().drop_first().drop_first().len() == 0);
}

/// The `ns` field is read from its element, and its text is decoded.
proof fn lemma_ns_leaf(s: ParserView, t: Seq<char>, evs: Seq<(EventView, usize)>)
    requires
        s.mode == Mode::Within(Level::Page),
        s.namespace is None,
        well_formed(PageSource { ns_text: t, title: t, format: None, model: None, text: t }),
        events_of(evs) == leaf(ns_name(), t),
    ensures
        run(s, evs) == (ParserView {
            mode: Mode::Within(Level::Page),
            namespace: namespace_of(decimal_i32(t)->Some_0 as int),
            ns_text: t,
            ..s
        }, Seq::<OutcomeView>::empty()),
{
    lemma_field_named(Field::Ns, ns_name());
    reveal_with_fuel(run, 4);
    assert(leaf(ns_name(), t).len() == 3);
    assert(events_of(evs).len() == evs.len());
    assert(evs.len() == 3);
    assert(evs[0].0 == events_of(evs)[0]);
    assert(evs[1].0 == events_of(evs)[1]);
    assert(evs[2].0 == events_of(evs)[2]);
    assert(evs.drop_first().drop_first().drop_first().len() == 0);
}

proof fn lemma_run_then(
    s: ParserView,
    a: Seq<(EventView, usize)>,
    b: Seq<(EventView, usize)>,
    s1: ParserView,
    o1: Seq<OutcomeView>,
    s2: ParserView,
    o2: Seq<OutcomeView>,
)
    requires
        run(s, a) == (s1, o1),
        run(s1, b) == (s2, o2),
    ensures
        run(s, a + b) == (s2, o1 + o2),
{
    lemma_run_concat(s, a, b);
}

proof fn lemma_run_empty(s: ParserView, evs: Seq<(EventView, usize)>)
    requires
        events_of(evs).len() == 0,
    ensures
        run(s, evs) == (s, Seq::<OutcomeView>::empty()),
{
    assert(events_of(evs).len() == evs.len());
}

proof fn lemma_run_single(s: ParserView, evs: Seq<(EventView, usize)>)
    requires
        events_of(evs).len() == 1,
    ensures
        evs.len() == 1,
        evs[0].0 == events_of(evs)[0],
        run(s, evs) == (
            step_spec(s, evs[0].0, evs[0].1).0,
            if step_spec(s, evs[0].0, evs[0].1).1 is More {
                Seq::<OutcomeView>::empty()
            } else {
                seq![step_spec(s, evs[0].0, evs[0].1).1]
            },
        ),
{
    reveal_with_fuel(run, 2);
    assert(events_of(evs).len() == evs.len());
    assert(seq![step_spec(s, evs[0].0, evs[0].1).1] + Seq::<OutcomeView>::empty() == seq![step_spec(s, evs[0].0, evs[0].1).1]);
}

/// A field that may be absent is read from its element where it is there.
proof fn lemma_optional_leaf(
    s: ParserView,
    f: Field,
    name: Seq<char>,
    o: Option<Seq<char>>,
    evs: Seq<(EventView, usize)>,
)
    requires
        f != Field::Ns,
        s.mode == Mode::Within(level_of(f)),
        !filled(s, f),
        field_named(level_of(f), start_of(name)) == Some(f),
        !opens(start_of(name), revision_name()),
        events_of(evs) == optional_leaf(name, o),
    ensures
        run(s, evs) == (match o {
            Some(t) => with_mode(store(s, f, t), Mode::Within(level_of(f))),
            None => s,
        }, Seq::<OutcomeView>::empty()),
{
    match o {
        Some(t) => lemma_leaf(s, f, name, t, evs),
        None => lemma_run_empty(s, evs),
    }
}

/// A revision with a `text` element fills the fields of the revision.
proof fn lemma_revision(s: ParserView, p: PageSource, evs: Seq<(EventView, usize)>)
    requires
        s.mode == Mode::Within(Level::Page),
        s.text is None,
        s.format is None,
        s.model is None,
        events_of(evs) == revision_events(p),
    ensures
        run(s, evs) == (ParserView {
            mode: Mode::Within(Level::Page),
            format: p.format,
            model: p.model,
            text: Some(p.text),
            ..s
        }, Seq::<OutcomeView>::empty()),
{
    let fl = optional_leaf(format_name(), p.format);
    let ml = optional_leaf(model_name(), p.model);
    let tl = leaf(text_name(), p.text);
    let all = revision_events(p);
    let n1: int = 1;
    let n2: int = n1 + fl.len();
    let n3: int = n2 + ml.len();
    let n4: int = n3 + 3;
    assert(events_of(evs).len() == evs.len());
    assert(evs.len() == n4 + 1);
    let a = evs.subrange(0, n1);
    let b = evs.subrange(n1, n2);
    let c = evs.subrange(n2, n3);
    let d = evs.subrange(n3, n4);
    let e = evs.subrange(n4, n4 + 1);
    lemma_events_sub(evs, 0, n1);
    lemma_events_sub(evs, n1, n2);
    lemma_events_sub(evs, n2, n3);
    lemma_events_sub(evs, n3, n4);
    lemma_events_sub(evs, n4, n4 + 1);
    assert(all.subrange(0, n1) =~= seq![start_of(revision_name())]);
    assert(all.subrange(n1, n2) =~= fl);
    assert(all.subrange(n2, n3) =~= ml);
    assert(all.subrange(n3, n4) =~= tl);
    assert(all.subrange(n4, n4 + 1) =~= seq![EventView::End]);
    assert(evs =~= a + b + c + d + e);
    lemma_names();
    lemma_field_named(Field::Format, format_name());
    lemma_field_named(Field::Model, model_name());
    lemma_field_named(Field::Text, text_name());

    let s1 = with_mode(s, Mode::Within(Level::Revision));
    lemma_run_single(s, a);
    let s2 = match p.format {
        Some(t) => with_mode(store(s1, Field::Format, t), Mode::Within(Level::Revision)),
        None => s1,
    };
    lemma_optional_leaf(s1, Field::Format, format_name(), p.format, b);
    let s3 = match p.model {
        Some(t) => with_mode(store(s2, Field::Model, t), Mode::Within(Level::Revision)),
        None => s2,
    };
    lemma_optional_leaf(s2, Field::Model, model_name(), p.model, c);
    let s4 = with_mode(store(s3, Field::Text, p.text), Mode::Within(Level::Revision));
    lemma_leaf(s3, Field::Text, text_name(), p.text, d);
    lemma_run_single(s4, e);
    let none = Seq::<OutcomeView>::empty();
    lemma_run_then(s, a, b, s1, none, s2, none);
    assert(none + none == none);
    lemma_run_then(s, a + b, c, s2, none, s3, none);
    lemma_run_then(s, a + b + c, d, s3, none, s4, none);
    lemma_run_then(s, a + b + c + d, e, s4, none, with_mode(s4, Mode::Within(Level::Page)), none);
}

/// The state once the fields of a well-formed page have all been read.
pub open spec fn read_state(p: PageSource) -> ParserView {
    ParserView {
        mode: Mode::Within(Level::Page),
        namespace: namespace_of(decimal_i32(p.ns_text)->Some_0 as int),
        ns_text: p.ns_text,
        title: Some(p.title),
        text: Some(p.text),
        format: p.format,
        model: p.model,
    }
}

pub open spec fn page_body_events(p: PageSource) -> Seq<EventView> {
    seq![start_of(page_name())] + leaf(ns_name(), p.ns_text) + leaf(title_name(), p.title)
        + revision_events(p)
}

/// The start tag and the fields of a well-formed page are read into the state.
proof fn lemma_page_body(s: ParserView, p: PageSource, evs: Seq<(EventView, usize)>)
    requires
        s.mode == Mode::Within(Level::Root),
        well_formed(p),
        events_of(evs) == page_body_events(p),
    ensures
        run(s, evs) == (read_state(p), Seq::<OutcomeView>::empty()),
{
    let rl = revision_events(p);
    let all = page_body_events(p);
    let n1: int = 1;
    let n2: int = 4;
    let n3: int = 7;
    let n4: int = n3 + rl.len();
    assert(events_of(evs).len() == evs.len());
    assert(evs.len() == n4);
    let a = evs.subrange(0, n1);
    let b = evs.subrange(n1, n2);
    let c = evs.subrange(n2, n3);
    let d = evs.subrange(n3, n4);
    lemma_events_sub(evs, 0, n1);
    lemma_events_sub(evs, n1, n2);
    lemma_events_sub(evs, n2, n3);
    lemma_events_sub(evs, n3, n4);
    assert(all.subrange(0, n1) =~= seq![start_of(page_name())]);
    assert(all.subrange(n1, n2) =~= leaf(ns_name(), p.ns_text));
    assert(all.subrange(n2, n3) =~= leaf(title_name(), p.title));
    assert(all.subrange(n3, n4) =~= rl);
    assert(evs =~= a + b + c + d);
    lemma_field_named(Field::Title, title_name());

    let s1 = empty_state(Mode::Within(Level::Page));
    lemma_run_single(s, a);
    let s2 = ParserView {
        mode: Mode::Within(Level::Page),
        namespace: namespace_of(decimal_i32(p.ns_text)->Some_0 as int),
        ns_text: p.ns_text,
        ..s1
    };
    lemma_ns_leaf(s1, p.ns_text, b);
    let s3 = with_mode(store(s2, Field::Title, p.title), Mode::Within(Level::Page));
    lemma_leaf(s2, Field::Title, title_name(), p.title, c);
    lemma_revision(s3, p, d);
    let none = Seq::<OutcomeView>::empty();
    assert(none + none == none);
    lemma_run_then(s, a, b, s1, none, s2, none);
    lemma_run_then(s, a + b, c, s2, none, s3, none);
    lemma_run_then(s, a + b + c, d, s3, none, read_state(p), none);
}

/// A well-formed page yields its record, and leaves the parser among the
/// children of the root with no field read.
proof fn lemma_page(s: ParserView, p: PageSource, evs: Seq<(EventView, usize)>)
    requires
        s.mode == Mode::Within(Level::Root),
        well_formed(p),
        events_of(evs) == page_events(p),
    ensures
        run(s, evs) == (empty_state(Mode::Within(Level::Root)), seq![OutcomeView::Emit(page_from(p))]),
{
    let n = page_body_events(p).len() as int;
    assert(events_of(evs).len() == evs.len());
    lemma_run_split(s, evs, n);
    assert(page_events(p).take(n) =~= page_body_events(p));
    assert(page_events(p).skip(n) =~= seq![EventView::End]);
    lemma_page_body(s, p, evs.take(n));
    lemma_run_single(read_state(p), evs.skip(n));
    assert(page_of(read_state(p)) == page_from(p));
    assert(Seq::<OutcomeView>::empty() + seq![OutcomeView::Emit(page_from(p))] == seq![OutcomeView::Emit(page_from(p))]);
}

proof fn lemma_pages(ps: Seq<PageSource>, evs: Seq<(EventView, usize)>)
    requires
        forall|i: int| 0 <= i < ps.len() ==> well_formed(#[trigger] ps[i]),
        events_of(evs) == pages_events(ps),
    ensures
        run(empty_state(Mode::Within(Level::Root)), evs) == (empty_state(Mode::Within(Level::Root)), emitted(ps)),
    decreases ps.len(),
{
    let s = empty_state(Mode::Within(Level::Root));
    if ps.len() == 0 {
        assert(emitted(ps) =~= Seq::<OutcomeView>::empty());
        lemma_run_empty(s, evs);
    } else {
        let n = page_events(ps[0]).len() as int;
        assert(events_of(evs).len() == evs.len());
        lemma_run_split(s, evs, n);
        assert(pages_events(ps).take(n) =~= page_events(ps[0]));
        assert(pages_events(ps).skip(n) =~= pages_events(ps.drop_first()));
        assert(well_formed(ps[0]));
        lemma_page(s, ps[0], evs.take(n));
        assert forall|i: int| 0 <= i < ps.drop_first().len() implies well_formed(
            #[trigger] ps.drop_first()[i],
        ) by {
            assert(well_formed(ps[i + 1]));
        }
        lemma_pages(ps.drop_first(), evs.skip(n));
        assert(emitted(ps) =~= seq![OutcomeView::Emit(page_from(ps[0]))] + emitted(ps.drop_first()));
    }
}

/// A dump in the export format, whose pages each hold an `ns` element with
/// the code of a known namespace, a `title` and one revision with a `text`,
/// yields the record of each page in document order and then the end of the
/// sequence, after which it yields nothing more.
pub proof fn lemma_dump_yields_pages(ps: Seq<PageSource>, evs: Seq<(EventView, usize)>)
    requires
        forall|i: int| 0 <= i < ps.len() ==> well_formed(#[trigger] ps[i]),
        events_of(evs) == dump_events(ps),
    ensures
        run(empty_state(Mode::Prolog), evs) == (empty_state(Mode::Done), emitted(ps).push(OutcomeView::Finished)),
        forall|e: EventView, pos: usize| step_spec(empty_state(Mode::Done), e, pos) == (empty_state(Mode::Done), OutcomeView::Finished),
{
    let s = empty_state(Mode::Prolog);
    let all = dump_events(ps);
    let m = pages_events(ps).len() as int;
    assert(events_of(evs).len() == evs.len());
    assert(evs.len() == m + 2);
    let a = evs.subrange(0, 1);
    let b = evs.subrange(1, m + 1);
    let c = evs.subrange(m + 1, m + 2);
    lemma_events_sub(evs, 0, 1);
    lemma_events_sub(evs, 1, m + 1);
    lemma_events_sub(evs, m + 1, m + 2);
    assert(all.subrange(0, 1) =~= seq![start_of(root_name())]);
    assert(all.subrange(1, m + 1) =~= pages_events(ps));
    assert(all.subrange(m + 1, m + 2) =~= seq![EventView::End]);
    assert(evs =~= a + b + c);
    let s1 = empty_state(Mode::Within(Level::Root));
    lemma_run_single(s, a);
    lemma_pages(ps, b);
    lemma_run_single(s1, c);
    let none = Seq::<OutcomeView>::empty();
    lemma_run_then(s, a, b, s1, none, s1, emitted(ps));
    lemma_run_then(s, a + b, c, s1, none + emitted(ps), empty_state(Mode::Done), seq![OutcomeView::Finished]);
    assert(none + emitted(ps) + seq![OutcomeView::Finished] =~= emitted(ps).push(OutcomeView::Finished));
}

/// A page without `format` and `model` elements yields a record whose format
/// and model are absent, while empty `format` and `model` elements give empty
/// strings.
pub proof fn lemma_absent_format_model(p: PageSource, evs: Seq<(EventView, usize)>, evs2: Seq<(EventView, usize)>)
    requires
        well_formed(p),
        p.format is None,
        p.model is None,
        events_of(evs) == dump_events(seq![p]),
        events_of(evs2) == dump_events(seq![PageSource { format: Some(Seq::empty()), model: Some(Seq::empty()), ..p }]),
    ensures
        run(empty_state(Mode::Prolog), evs).1 == seq![OutcomeView::Emit(PageView {
            format: None,
            model: None,
            namespace: namespace_of(decimal_i32(p.ns_text)->Some_0 as int)->Some_0,
            text: p.text,
            title: p.title,
        }), OutcomeView::Finished],
        run(empty_state(Mode::Prolog), evs2).1 == seq![OutcomeView::Emit(PageView {
            format: Some(Seq::empty()),
            model: Some(Seq::empty()),
            namespace: namespace_of(decimal_i32(p.ns_text)->Some_0 as int)->Some_0,
            text: p.text,
            title: p.title,
        }), OutcomeView::Finished],
{
    let q = PageSource { format: Some(Seq::empty()), model: Some(Seq::empty()), ..p };
    assert(well_formed(seq![p][0]));
    assert(well_formed(seq![q][0]));
    lemma_dump_yields_pages(seq![p], evs);
    lemma_dump_yields_pages(seq![q], evs2);
    assert(emitted(seq![p]).push(OutcomeView::Finished) =~= seq![OutcomeView::Emit(page_from(p)), OutcomeView::Finished]);
    assert(emitted(seq![q]).push(OutcomeView::Finished) =~= seq![OutcomeView::Emit(page_from(q)), OutcomeView::Finished]);
}

/// An empty `text` element, with no character data between its tags, gives
/// the empty text.
pub proof fn lemma_empty_text(s: ParserView, evs: Seq<(EventView, usize)>)
    requires
        s.mode == Mode::Within(Level::Revision),
        s.text is None,
        events_of(evs) == seq![start_of(text_name()), EventView::End],
    ensures
        run(s, evs) == (ParserView { text: Some(Seq::empty()), ..s }, Seq::<OutcomeView>::empty()),
{
    lemma_field_named(Field::Text, text_name());
    reveal_with_fuel(run, 3);
    assert(events_of(evs).len() == evs.len());
    assert(evs[0].0 == events_of(evs)[0]);
    assert(evs[1].0 == events_of(evs)[1]);
    assert(evs.drop_first().drop_first().len() == 0);
}

/// A second `revision` start tag in a page is reported as not supported, at
/// its offset, and the page gives no record; nothing follows.
pub proof fn lemma_second_revision(s: ParserView, p: PageSource, evs: Seq<(EventView, usize)>)
    requires
        s.mode == Mode::Within(Level::Root),
        well_formed(p),
        events_of(evs) == page_body_events(p).push(start_of(revision_name())),
    ensures
        run(s, evs).0.mode == Mode::Done,
        run(s, evs).1 == seq![OutcomeView::NotSupported(evs.last().1)],
{
    let n = page_body_events(p).len() as int;
    assert(events_of(evs).len() == evs.len());
    lemma_run_split(s, evs, n);
    assert(events_of(evs).take(n) =~= page_body_events(p));
    assert(events_of(evs).skip(n) =~= seq![start_of(revision_name())]);
    lemma_page_body(s, p, evs.take(n));
    lemma_run_single(read_state(p), evs.skip(n));
    assert(evs.skip(n)[0] == evs.last());
    assert(Seq::<OutcomeView>::empty() + seq![OutcomeView::NotSupported(evs.last().1)] == seq![OutcomeView::NotSupported(evs.last().1)]);
}

/// A page without a `title` element is reported as malformed at its end tag.
pub proof fn lemma_missing_title(s: ParserView, p: PageSource, evs: Seq<(EventView, usize)>)
    requires
        s.mode == Mode::Within(Level::Root),
        well_formed(p),
        events_of(evs) == seq![start_of(page_name())] + leaf(ns_name(), p.ns_text) + revision_events(p)
            + seq![EventView::End],
    ensures
        run(s, evs).0.mode == Mode::Done,
        run(s, evs).1 == seq![OutcomeView::Format(evs.last().1)],
{
    let rl = revision_events(p);
    let all = events_of(evs);
    let n3: int = 4 + rl.len() as int;
    assert(events_of(evs).len() == evs.len());
    assert(evs.len() == n3 + 1);
    let a = evs.subrange(0, 1);
    let b = evs.subrange(1, 4);
    let d = evs.subrange(4, n3);
    let e = evs.subrange(n3, n3 + 1);
    lemma_events_sub(evs, 0, 1);
    lemma_events_sub(evs, 1, 4);
    lemma_events_sub(evs, 4, n3);
    lemma_events_sub(evs, n3, n3 + 1);
    assert(all.subrange(0, 1) =~= seq![start_of(page_name())]);
    assert(all.subrange(1, 4) =~= leaf(ns_name(), p.ns_text));
    assert(all.subrange(4, n3) =~= rl);
    assert(all.subrange(n3, n3 + 1) =~= seq![EventView::End]);
    assert(evs =~= a + b + d + e);
    let s1 = empty_state(Mode::Within(Level::Page));
    lemma_run_single(s, a);
    let s2 = ParserView {
        mode: Mode::Within(Level::Page),
        namespace: namespace_of(decimal_i32(p.ns_text)->Some_0 as int),
        ns_text: p.ns_text,
        ..s1
    };
    lemma_ns_leaf(s1, p.ns_text, b);
    let s3 = ParserView {
        mode: Mode::Within(Level::Page),
        format: p.format,
        model: p.model,
        text: Some(p.text),
        ..s2
    };
    lemma_revision(s2, p, d);
    lemma_run_single(s3, e);
    assert(e[0] == evs.last());
    let none = Seq::<OutcomeView>::empty();
    assert(none + none == none);
    lemma_run_then(s, a, b, s1, none, s2, none);
    lemma_run_then(s, a + b, d, s2, none, s3, none);
    lemma_run_then(s, a + b + d, e, s3, none, with_mode(s3, Mode::Done), seq![OutcomeView::Format(evs.last().1)]);
    assert(none + seq![OutcomeView::Format(evs.last().1)] == seq![OutcomeView::Format(evs.last().1)]);
}

/// Whether `evs` runs to the end tag that closes an element `d` levels above
/// its first event, nesting balanced start and end tags, with nothing after
/// that end tag and no end of input before it.
pub open spec fn closes(evs: Seq<EventView>, d: nat) -> bool
    decreases evs.len(),
{
    if evs.len() == 0 {
        false
    } else {
        match evs[0] {
            EventView::End => if d == 0 {
                evs.len() == 1
            } else {
                closes(evs.drop_first(), (d - 1) as nat)
            },
            EventView::Start { .. } => closes(evs.drop_first(), d + 1),
            EventView::Eof => false,
            _ => closes(evs.drop_first(), d),
        }
    }
}

/// A start tag that the parser passes over among the children of `level`.
pub open spec fn ignored(level: Level, e: EventView) -> bool {
    &&& e is Start
    &&& field_named(level, e) is None
    &&& !(level == Level::Root && opens(e, page_name()))
    &&& !(level == Level::Page && opens(e, revision_name()))
}

proof fn lemma_skip(s: ParserView, back: Level, d: usize, evs: Seq<(EventView, usize)>)
    requires
        s.mode == (Mode::Skipping { back, depth: d }),
        closes(events_of(evs), d as nat),
        d + evs.len() <= usize::MAX,
    ensures
        run(s, evs) == (with_mode(s, Mode::Within(back)), Seq::<OutcomeView>::empty()),
    decreases evs.len(),
{
    assert(events_of(evs).len() == evs.len());
    assert(evs[0].0 == events_of(evs)[0]);
    assert(events_of(evs.drop_first()) =~= events_of(evs).drop_first());
    let rest = evs.drop_first();
    match evs[0].0 {
        EventView::End => {
            if d == 0 {
                assert(rest.len() == 0);
                reveal_with_fuel(run, 2);
            } else {
                lemma_skip(with_mode(s, Mode::Skipping { back, depth: (d - 1) as usize }), back, (d - 1) as usize, rest);
            }
        },
        EventView::Start { .. } => {
            lemma_skip(with_mode(s, Mode::Skipping { back, depth: (d + 1) as usize }), back, (d + 1) as usize, rest);
        },
        EventView::Eof => {},
        _ => {
            lemma_skip(s, back, d, rest);
        },
    }
}

/// An element that the parser does not read, with whatever content nested to
/// any depth, is passed over: the state after it is the state before it, so
/// the fields around it are read as if it were not there.
pub proof fn lemma_unknown_element_skipped(s: ParserView, evs: Seq<(EventView, usize)>)
    requires
        s.mode is Within,
        evs.len() > 0,
        ignored(s.mode->Within_0, events_of(evs)[0]),
        closes(events_of(evs).drop_first(), 0),
        evs.len() <= usize::MAX,
    ensures
        run(s, evs) == (s, Seq::<OutcomeView>::empty()),
{
    let level = s.mode->Within_0;
    assert(events_of(evs).len() == evs.len());
    assert(evs[0].0 == events_of(evs)[0]);
    assert(events_of(evs.drop_first()) =~= events_of(evs).drop_first());
    let s1 = with_mode(s, Mode::Skipping { back: level, depth: 0 });
    lemma_skip(s1, level, 0, evs.drop_first());
    assert(with_mode(s1, Mode::Within(level)) == s);
}

pub open spec fn events_view(evs: Seq<(XmlEvent, usize)>) -> Seq<(EventView, usize)> {
    evs.map_values(|x: (XmlEvent, usize)| (x.0@, x.1))
}

pub open spec fn outcomes_view(os: Seq<Outcome>) -> Seq<OutcomeView> {
    os.map_values(|o: Outcome| o@)
}

fn copy_event(e: &XmlEvent) -> (r: XmlEvent)
    ensures
        r@ == e@,
{
    match e {
        XmlEvent::Start { namespace, local_name } => XmlEvent::Start {
            namespace: match namespace {
                Some(n) => Some(n.clone()),
                None => None,
            },
            local_name: local_name.clone(),
        },
        XmlEvent::End => XmlEvent::End,
        XmlEvent::Text(t) => XmlEvent::Text(t.clone()),
        XmlEvent::Other => XmlEvent::Other,
        XmlEvent::Eof => XmlEvent::Eof,
    }
}

/// Feeds the events of a document, each with its byte offset, to a new
/// parser, and returns what they brought about other than `More`, in order:
/// the pages, then `Finished` or an error; each event after that gives
/// `Finished` once more.
pub fn parse_events(events: &Vec<(XmlEvent, usize)>) -> (r: Vec<Outcome>)
    ensures
        outcomes_view(r@) == run(empty_state(Mode::Prolog), events_view(events@)).1,
{
    let mut parser = DumpParser::new();
    let mut out: Vec<Outcome> = Vec::new();
    let ghost init = empty_state(Mode::Prolog);
    let mut i: usize = 0;
    while i < events.len()
        invariant
            i <= events@.len(),
            parser@ == run(init, events_view(events@).take(i as int)).0,
            outcomes_view(out@) == run(init, events_view(events@).take(i as int)).1,
        decreases events@.len() - i,
    {
        let ghost before = events_view(events@).take(i as int);
        let ghost one = events_view(events@).subrange(i as int, i + 1);
        proof {
            assert(events_view(events@).take(i + 1) == before + one);
            assert(events_of(one).len() == 1);
            lemma_run_concat(init, before, one);
            lemma_run_single(parser@, one);
        }
        let event = copy_event(&events[i].0);
        let o = parser.step(event, events[i].1);
        if !matches!(o, Outcome::More) {
            out.push(o);
            assert(outcomes_view(out@) =~= outcomes_view(out@.drop_last()).push(o@));
        }
        proof {
            let os = run(init, before).1;
            if !(o@ is More) {
                assert(os + seq![o@] == os.push(o@));
            } else {
                assert(os + Seq::<OutcomeView>::empty() == os);
            }
        }
        i = i + 1;
    }
    assert(events_view(events@).take(i as int) == events_view(events@));
    out
}

} // verus!

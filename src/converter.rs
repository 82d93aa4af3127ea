//! Configuration of a conversion, the outside work it asks for, and the
//! assembly of the final document.
use vstd::prelude::*;
use vstd::string::StringExecFns;
use crate::events::{Event, Tag, Request, Reply, ConvertError};
use crate::engine::{Settings, EngineView, initial, step, flush, is_web_link, assets_of};
use crate::translator::{Engine, is_absolute_url};
use crate::resolve::{fragment_of, link_fragment, join, join_path, is_vector, is_vector_path, raster_of, raster_path};
use crate::strings::chars_of;
use crate::text::collect_range;

verus! {

/// The marker in a template after which the body goes.
pub const DOCUMENT_BEGIN: &'static str = "\\begin{document}";

/// A conversion of parse events into LaTeX, with its settings.
pub struct Converter {
    pub events: Vec<Event>,
    pub template: Option<String>,
    pub settings: Settings,
}

/// The reply given for the event at `i`; a missing reply counts as nothing found.
pub open spec fn reply_at(replies: Seq<Reply>, i: int) -> Reply {
    if 0 <= i < replies.len() {
        replies[i]
    } else {
        Reply::NotFound
    }
}

/// The state after the first `n` events, or the error that stopped the run.
pub open spec fn translate(c: Settings, evs: Seq<Event>, replies: Seq<Reply>, n: nat) -> Result<
    EngineView,
    ConvertError,
>
    decreases n,
{
    if n == 0 {
        Ok(initial())
    } else {
        match translate(c, evs, replies, (n - 1) as nat) {
            Ok(s) => step(c, s, evs[n - 1], reply_at(replies, n - 1)),
            Err(e) => Err(e),
        }
    }
}

/// The first position at or after `i` where `needle` occurs in `hay`.
pub open spec fn occurrence_from(hay: Seq<char>, needle: Seq<char>, i: int) -> Option<int>
    decreases hay.len() + 1 - i,
{
    if i < 0 || i + needle.len() > hay.len() {
        None
    } else if hay.subrange(i, i + needle.len()) == needle {
        Some(i)
    } else {
        occurrence_from(hay, needle, i + 1)
    }
}

/// The template with `body` put right after its first `\begin{document}`.
pub open spec fn splice(template: Seq<char>, body: Seq<char>) -> Option<Seq<char>> {
    match occurrence_from(template, DOCUMENT_BEGIN@, 0) {
        Some(p) => {
            let q = p + DOCUMENT_BEGIN@.len();
            Some(template.subrange(0, q) + body + template.subrange(q, template.len() as int))
        },
        None => None,
    }
}

/// What a whole run returns: the body, spliced into the template if there is one.
pub open spec fn run_result(c: Converter, replies: Seq<Reply>, r: Result<String, ConvertError>) -> bool {
    match translate(c.settings, c.events@, replies, c.events@.len()) {
        Err(e) => r == Err::<String, ConvertError>(e),
        Ok(s) => match c.template {
            None => r matches Ok(out) && out@ == flush(s).out,
            Some(t) => match splice(t@, flush(s).out) {
                Some(doc) => r matches Ok(out) && out@ == doc,
                None => r == Err::<String, ConvertError>(ConvertError::MissingDocumentBegin),
            },
        },
    }
}

/// The outside work that an event needs: the title of a relative link's
/// target, or the raster form of a vector image.
pub open spec fn request_ok(c: Settings, e: Event, r: Request) -> bool {
    match e {
        Event::Start(Tag::Link(url)) => if is_web_link(url@) {
            r is Nothing
        } else {
            r matches Request::FindTitle { root, fragment } && root@ == assets_of(c) && fragment@
                == fragment_of(url@)
        },
        Event::Start(Tag::Image(p, _)) => {
            let src = join(assets_of(c), p@);
            if is_vector(src) {
                r matches Request::Rasterize { source, target } && source@ == src && target@
                    == raster_of(src)
            } else {
                r is Nothing
            }
        },
        _ => r is Nothing,
    }
}

/// The first position where `needle` occurs in `hay`.
fn find_chars(hay: &Vec<char>, needle: &Vec<char>) -> (r: Option<usize>)
    ensures
        r matches Some(p) ==> occurrence_from(hay@, needle@, 0) == Some(p as int) && p
            + needle@.len() <= hay@.len(),
        r is None ==> occurrence_from(hay@, needle@, 0) is None,
{
    let n = hay.len();
    let m = needle.len();
    let mut i: usize = 0;
    while m <= n && i <= n - m
        invariant
            n == hay@.len(),
            m == needle@.len(),
            occurrence_from(hay@, needle@, i as int) == occurrence_from(hay@, needle@, 0),
        decreases n - i,
    {
        let mut k: usize = 0;
        while k < m && hay[i + k] == needle[k]
            invariant
                i + m <= n,
                n == hay@.len(),
                m == needle@.len(),
                k <= m,
                forall|j: int| 0 <= j < k ==> hay@[i + j] == needle@[j],
            decreases m - k,
        {
            k = k + 1;
        }
        if k == m {
            assert(hay@.subrange(i as int, i + m) =~= needle@);
            return Some(i);
        }
        assert(hay@.subrange(i as int, i + m)[k as int] != needle@[k as int]);
        i = i + 1;
    }
    None
}

/// The template with `body` put right after its first `\begin{document}`.
pub fn splice_body(template: &str, body: &str) -> (r: Option<String>)
    ensures
        r matches Some(doc) ==> splice(template@, body@) == Some(doc@),
        r is None ==> splice(template@, body@) is None,
{
    let tc = chars_of(template);
    let mc = chars_of(DOCUMENT_BEGIN);
    match find_chars(&tc, &mc) {
        Some(p) => {
            let n = tc.len();
            let q = p + mc.len();
            let mut doc = collect_range(&tc, 0, q);
            doc.append(body);
            let tail = collect_range(&tc, q, n);
            doc.append(tail.as_str());
            Some(doc)
        },
        None => None,
    }
}

/// The request an event makes of the outside world.
pub fn request_for(c: &Settings, e: &Event) -> (r: Request)
    ensures
        request_ok(*c, *e, r),
{
    let root: &str = match &c.assets {
        Some(a) => a.as_str(),
        None => "",
    };
    proof {
        reveal_strlit("");
        assert(root@ =~= assets_of(*c));
    }
    match e {
        Event::Start(Tag::Link(url)) => {
            if is_absolute_url(url.as_str()) {
                Request::Nothing
            } else {
                Request::FindTitle { root: String::from_str(root), fragment: link_fragment(url.as_str()) }
            }
        },
        Event::Start(Tag::Image(p, _)) => {
            let src = join_path(root, p.as_str());
            if is_vector_path(src.as_str()) {
                let target = raster_path(src.as_str());
                Request::Rasterize { source: src, target }
            } else {
                Request::Nothing
            }
        },
        _ => Request::Nothing,
    }
}

impl Converter {
    pub fn new(events: Vec<Event>) -> (r: Converter)
        ensures
            r.events@ == events@,
            r.template is None,
            r.settings.assets is None,
            r.settings.chap_offset == 0,
            r.settings.code_utf8_escape is None,
    {
        Converter {
            events,
            template: None,
            settings: Settings { chap_offset: 0, assets: None, code_utf8_escape: None },
        }
    }

    /// Sets the template whose `\begin{document}` the body follows.
    pub fn template(self, template: &str) -> (r: Converter)
        ensures
            r.events@ == self.events@,
            r.template matches Some(t) && t@ == template@,
            r.settings == self.settings,
    {
        Converter { template: Some(String::from_str(template)), ..self }
    }

    /// Sets the directory that image paths and relative links are read against.
    pub fn assets(self, assets: &str) -> (r: Converter)
        ensures
            r.events@ == self.events@,
            r.template == self.template,
            r.settings.assets matches Some(a) && a@ == assets@,
            r.settings.chap_offset == self.settings.chap_offset,
            r.settings.code_utf8_escape == self.settings.code_utf8_escape,
    {
        let Converter { events, template, settings } = self;
        Converter {
            events,
            template,
            settings: Settings { assets: Some(String::from_str(assets)), ..settings },
        }
    }

    /// Sets the number added to each heading's level.
    pub fn chapter_level_offset(self, offset: i32) -> (r: Self)
        ensures
            r.events@ == self.events@,
            r.template == self.template,
            r.settings.assets == self.settings.assets,
            r.settings.chap_offset == offset,
            r.settings.code_utf8_escape == self.settings.code_utf8_escape,
    {
        let Converter { events, template, settings } = self;
        Converter { events, template, settings: Settings { chap_offset: offset, ..settings } }
    }

    /// Sets the markers put around each non-ASCII character of inline code.
    pub fn code_utf8_escape(self, start_escape: &str, end_escape: &str) -> (r: Self)
        ensures
            r.events@ == self.events@,
            r.template == self.template,
            r.settings.assets == self.settings.assets,
            r.settings.chap_offset == self.settings.chap_offset,
            r.settings.code_utf8_escape matches Some((a, b)) && a@ == start_escape@ && b@
                == end_escape@,
    {
        let Converter { events, template, settings } = self;
        let esc = Some((String::from_str(start_escape), String::from_str(end_escape)));
        Converter { events, template, settings: Settings { code_utf8_escape: esc, ..settings } }
    }

    /// The outside work that each event needs, in event order.
    pub fn requests(&self) -> (r: Vec<Request>)
        ensures
            r@.len() == self.events@.len(),
            forall|i: int| 0 <= i < r@.len() ==> request_ok(self.settings, self.events@[i], r@[i]),
    {
        let mut r: Vec<Request> = Vec::new();
        let mut i: usize = 0;
        while i < self.events.len()
            invariant
                i <= self.events@.len(),
                r@.len() == i,
                forall|j: int| 0 <= j < i ==> request_ok(self.settings, self.events@[j], r@[j]),
            decreases self.events@.len() - i,
        {
            r.push(request_for(&self.settings, &self.events[i]));
            i = i + 1;
        }
        r
    }

    /// Translates the events, the reply at each index answering the request of
    /// the event at that index, and puts the body into the template.
    pub fn run(self, replies: &Vec<Reply>) -> (r: Result<String, ConvertError>)
        ensures
            run_result(self, replies@, r),
    {
        let mut engine = Engine::new();
        let mut i: usize = 0;
        while i < self.events.len()
            invariant
                i <= self.events@.len(),
                translate(self.settings, self.events@, replies@, i as nat) matches Ok(s)
                    && engine@ == s,
            decreases self.events@.len() - i,
        {
            let missing = Reply::NotFound;
            let reply = if i < replies.len() {
                &replies[i]
            } else {
                &missing
            };
            match engine.step(&self.settings, &self.events[i], reply) {
                Ok(()) => {},
                Err(e) => {
                    proof {
                        lemma_translate_stops(self.settings, self.events@, replies@, (i + 1) as nat, self.events@.len());
                    }
                    return Err(e);
                },
            }
            i = i + 1;
        }
        let body = engine.into_output();
        match &self.template {
            None => Ok(body),
            Some(t) => match splice_body(t.as_str(), body.as_str()) {
                Some(doc) => Ok(doc),
                None => Err(ConvertError::MissingDocumentBegin),
            },
        }
    }
}

/// Once a run has stopped, it stays stopped with the same error.
proof fn lemma_translate_stops(c: Settings, evs: Seq<Event>, replies: Seq<Reply>, n: nat, m: nat)
    requires
        n <= m,
        translate(c, evs, replies, n) is Err,
    ensures
        translate(c, evs, replies, m) == translate(c, evs, replies, n),
    decreases m - n,
{
    if n < m {
        lemma_translate_stops(c, evs, replies, n, (m - 1) as nat);
    }
}

} // verus!

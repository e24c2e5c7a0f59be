//! Languages and translation bundles.

use vstd::prelude::*;
use crate::text::{all_ascii, lowercase, to_lowercase, vec_eq, vec_of};
use crate::localization::xml::{
    AttributeView, RawAttribute, XmlEvent, XmlEventView, attribute_view, attribute_views,
    event_views, is_terminal, utf8_string, xml_event_at, xml_next, xml_open,
};
use vstd::utf8::{decode_utf8, valid_utf8};

verus! {

/// A user interface language.
#[derive(Debug, Clone, Copy, PartialEq, Eq, Structural)]
pub enum Language {
    En,
    Ru,
}

impl Default for Language {
    fn default() -> (r: Self)
        ensures
            r == Language::En,
    {
        Language::En
    }
}

/// The code a language is stored as.
pub open spec fn language_code(l: Language) -> Seq<char> {
    match l {
        Language::En => "en"@,
        Language::Ru => "ru"@,
    }
}

/// The language a stored name stands for: Russian for "ru", "russian" or
/// "русский" in any letter case, English otherwise.
pub open spec fn language_of_name(name: Seq<char>) -> Language {
    let l = lowercase(name);
    if l == "ru"@ || l == "russian"@ || l == "русский"@ {
        Language::Ru
    } else {
        Language::En
    }
}

impl Language {
    pub fn as_str(&self) -> (r: &'static str)
        ensures
            r@ == language_code(*self),
    {
        match self {
            Language::En => "en",
            Language::Ru => "ru",
        }
    }

    /// The language a stored name stands for. Reading back a language's
    /// own code gives that language.
    pub fn from_str_name(name: &str) -> (r: Self)
        ensures
            r == language_of_name(name@),
            forall|l: Language| name@ == language_code(l) ==> r == l,
    {
        let low = to_lowercase(name);
        proof {
            reveal_strlit("en");
            reveal_strlit("ru");
            reveal_strlit("russian");
            reveal_strlit("русский");
            if name@ == "en"@ {
                assert(all_ascii(name@));
                assert(low@ =~= "en"@);
                assert(low@[1] != "ru"@[1]);
            }
            if name@ == "ru"@ {
                assert(all_ascii(name@));
                assert(low@ =~= "ru"@);
            }
        }
        let l = vec_of(low.as_str());
        if vec_eq(&l, &vec_of("ru")) || vec_eq(&l, &vec_of("russian")) || vec_eq(
            &l,
            &vec_of("русский"),
        ) {
            Language::Ru
        } else {
            Language::En
        }
    }
}


/// Why a translation file could not be loaded.
#[derive(Debug, Clone, Copy, PartialEq, Eq, Structural)]
pub enum LoadError {
    /// The XML is not well formed.
    Malformed,
    /// A `string` element has a malformed attribute.
    BadAttribute,
    /// A `name` attribute is not valid UTF-8.
    InvalidUtf8,
    /// A translation holds an invalid escape.
    BadEscape,
    /// The document ended without an end-of-file event in reach.
    Unterminated,
}

/// Translations of one language: a map from keys to texts.
#[derive(Debug)]
pub struct LocalizationBundle {
    entries: Vec<(String, String)>,
}

impl LocalizationBundle {
    /// The keys, in insertion order.
    pub closed spec fn key_seq(&self) -> Seq<Seq<char>> {
        Seq::new(self.entries@.len(), |i: int| self.entries@[i].0@)
    }

    /// No key occurs twice.
    #[verifier::type_invariant]
    closed spec fn keys_unique(self) -> bool {
        self.key_seq().no_duplicates()
    }
}

impl View for LocalizationBundle {
    type V = Map<Seq<char>, Seq<char>>;

    closed spec fn view(&self) -> Map<Seq<char>, Seq<char>> {
        Map::new(
            |k: Seq<char>| self.key_seq().contains(k),
            |k: Seq<char>| self.entries@[self.key_seq().index_of(k)].1@,
        )
    }
}

/// The bytes of the tag name `string`.
pub open spec fn string_tag() -> Seq<u8> {
    seq![115u8, 116u8, 114u8, 105u8, 110u8, 103u8]
}

/// The bytes of the attribute key `name`.
pub open spec fn name_key() -> Seq<u8> {
    seq![110u8, 97u8, 109u8, 101u8]
}

/// The key a `string` start tag selects: each `name` attribute in turn sets
/// it to its value; a malformed attribute or a value that is not UTF-8
/// fails the load.
pub open spec fn apply_attributes(attrs: Seq<AttributeView>, key: Option<Seq<char>>) -> Result<
    Option<Seq<char>>,
    LoadError,
>
    decreases attrs.len(),
{
    if attrs.len() == 0 {
        Ok(key)
    } else {
        match attrs[0] {
            None => Err(LoadError::BadAttribute),
            Some((k, v)) => if k == name_key() {
                if valid_utf8(v) {
                    apply_attributes(attrs.drop_first(), Some(decode_utf8(v)))
                } else {
                    Err(LoadError::InvalidUtf8)
                }
            } else {
                apply_attributes(attrs.drop_first(), key)
            },
        }
    }
}

/// What one event does to the translations read so far and the current key.
pub enum LoadStep {
    Continue(Map<Seq<char>, Seq<char>>, Option<Seq<char>>),
    Finished(Map<Seq<char>, Seq<char>>),
    Failed(LoadError),
}

/// A `string` start tag selects a key; text under a selected key becomes
/// its translation (a later one replaces an earlier); a `string` end tag
/// clears the key; the end of the document finishes; an error fails.
pub open spec fn load_step(
    e: XmlEventView,
    m: Map<Seq<char>, Seq<char>>,
    key: Option<Seq<char>>,
) -> LoadStep {
    match e {
        XmlEventView::Start(n, attrs) => if n == string_tag() {
            match apply_attributes(attrs, key) {
                Ok(k) => LoadStep::Continue(m, k),
                Err(err) => LoadStep::Failed(err),
            }
        } else {
            LoadStep::Continue(m, key)
        },
        XmlEventView::Text(t) => match key {
            Some(k) => match t {
                Some(text) => LoadStep::Continue(m.insert(k, text), key),
                None => LoadStep::Failed(LoadError::BadEscape),
            },
            None => LoadStep::Continue(m, key),
        },
        XmlEventView::End(n) => if n == string_tag() {
            LoadStep::Continue(m, None)
        } else {
            LoadStep::Continue(m, key)
        },
        XmlEventView::Eof => LoadStep::Finished(m),
        XmlEventView::Fault => LoadStep::Failed(LoadError::Malformed),
        XmlEventView::Other => LoadStep::Continue(m, key),
    }
}

/// The translations a sequence of events yields, from the given state.
pub open spec fn load_events(
    evs: Seq<XmlEventView>,
    m: Map<Seq<char>, Seq<char>>,
    key: Option<Seq<char>>,
) -> Result<Map<Seq<char>, Seq<char>>, LoadError>
    decreases evs.len(),
{
    if evs.len() == 0 {
        Err(LoadError::Unterminated)
    } else {
        match load_step(evs[0], m, key) {
            LoadStep::Continue(m2, k2) => load_events(evs.drop_first(), m2, k2),
            LoadStep::Finished(m2) => Ok(m2),
            LoadStep::Failed(err) => Err(err),
        }
    }
}

/// The events of `source` from the `index`-th on, up to and including the
/// first end-of-file or error, reading at most `fuel` events.
pub open spec fn xml_stream(source: Seq<char>, index: nat, fuel: nat) -> Seq<XmlEventView>
    decreases fuel,
{
    if fuel == 0 {
        seq![]
    } else {
        let e = xml_event_at(source, index);
        if is_terminal(e) {
            seq![e]
        } else {
            seq![e] + xml_stream(source, index + 1, (fuel - 1) as nat)
        }
    }
}

/// The translations of an XML document: the events read with at most one
/// more read than the document has bytes.
pub open spec fn bundle_of_xml(source: Seq<char>) -> Result<Map<Seq<char>, Seq<char>>, LoadError> {
    load_events(
        xml_stream(source, 0, vstd::utf8::encode_utf8(source).len() + 1),
        Map::empty(),
        None,
    )
}

/// The result of loading, as a map.
pub open spec fn load_result_view(r: Result<LocalizationBundle, LoadError>) -> Result<
    Map<Seq<char>, Seq<char>>,
    LoadError,
> {
    match r {
        Ok(b) => Ok(b@),
        Err(e) => Err(e),
    }
}

/// The text an optional string holds.
pub open spec fn string_opt_view(o: &Option<String>) -> Option<Seq<char>> {
    match o {
        Some(s) => Some(s@),
        None => None,
    }
}

/// The value of a key lookup's result.
pub open spec fn key_result_view(r: &Result<Option<String>, LoadError>) -> Result<
    Option<Seq<char>>,
    LoadError,
> {
    match r {
        Ok(k) => Ok(string_opt_view(k)),
        Err(e) => Err(*e),
    }
}

/// Whether the byte vector equals `lit`.
fn bytes_eq(v: &Vec<u8>, lit: &Vec<u8>) -> (r: bool)
    ensures
        r == (v@ == lit@),
{
    if v.len() != lit.len() {
        return false;
    }
    let mut i: usize = 0;
    while i < v.len()
        invariant
            v.len() == lit.len(),
            i <= v.len(),
            forall|j: int| 0 <= j < i ==> v@[j] == lit@[j],
        decreases v.len() - i,
    {
        if v[i] != lit[i] {
            return false;
        }
        i += 1;
    }
    assert(v@ =~= lit@);
    true
}

fn string_tag_bytes() -> (r: Vec<u8>)
    ensures
        r@ == string_tag(),
{
    let r = vec![115u8, 116u8, 114u8, 105u8, 110u8, 103u8];
    assert(r@ =~= string_tag());
    r
}

fn name_key_bytes() -> (r: Vec<u8>)
    ensures
        r@ == name_key(),
{
    let r = vec![110u8, 97u8, 109u8, 101u8];
    assert(r@ =~= name_key());
    r
}

impl LocalizationBundle {
    /// An empty bundle.
    pub fn new() -> (r: Self)
        ensures
            r@ == Map::<Seq<char>, Seq<char>>::empty(),
    {
        let r = LocalizationBundle { entries: Vec::new() };
        assert(r@ =~= Map::<Seq<char>, Seq<char>>::empty());
        r
    }

    /// Index of `key` among the entries, or the number of entries.
    fn position(&self, key: &Vec<char>) -> (r: usize)
        ensures
            r <= self.entries@.len(),
            r < self.entries@.len() ==> self.key_seq()[r as int] == key@,
            r == self.entries@.len() ==> !self.key_seq().contains(key@),
    {
        let mut i: usize = 0;
        while i < self.entries.len()
            invariant
                i <= self.entries@.len(),
                forall|j: int| 0 <= j < i ==> self.key_seq()[j] != key@,
            decreases self.entries.len() - i,
        {
            if vec_eq(&vec_of(self.entries[i].0.as_str()), key) {
                return i;
            }
            i += 1;
        }
        i
    }

    /// Sets the translation of `key`.
    fn insert(&mut self, key: String, value: String)
        ensures
            final(self)@ == old(self)@.insert(key@, value@),
    {
        proof {
            use_type_invariant(&*self);
        }
        let k = vec_of(key.as_str());
        let i = self.position(&k);
        let ghost old_keys = self.key_seq();
        let ghost old_view = self@;
        if i < self.entries.len() {
            let mut entries: Vec<(String, String)> = Vec::new();
            std::mem::swap(&mut entries, &mut self.entries);
            entries.set(i, (key, value));
            proof {
                let ks = Seq::new(entries@.len(), |j: int| entries@[j].0@);
                assert(ks =~= old_keys);
            }
            self.entries = entries;
        } else {
            let mut entries: Vec<(String, String)> = Vec::new();
            std::mem::swap(&mut entries, &mut self.entries);
            entries.push((key, value));
            proof {
                let ks = Seq::new(entries@.len(), |j: int| entries@[j].0@);
                assert(ks =~= old_keys.push(k@));
            }
            self.entries = entries;
        }
        proof {
            let ks = self.key_seq();
            assert forall|x: Seq<char>| #[trigger] self@.contains_key(x) == old_view.insert(
                key@,
                value@,
            ).contains_key(x) by {
                if x == key@ {
                    assert(ks[i as int] == x);
                } else if old_keys.contains(x) {
                    let j = old_keys.index_of(x);
                    assert(ks[j] == x);
                } else if ks.contains(x) {
                    let j = ks.index_of(x);
                    assert(old_keys[j] == x);
                }
            }
            assert forall|x: Seq<char>| #[trigger] self@.contains_key(x) implies self@[x]
                == old_view.insert(key@, value@)[x] by {
                let j = ks.index_of(x);
                if x == key@ {
                    assert(ks[i as int] == x);
                    assert(j == i);
                } else {
                    let j0 = old_keys.index_of(x);
                    assert(old_keys.contains(x)) by {
                        assert(old_keys[j] == x);
                    }
                    assert(j0 == j);
                }
            }
            assert(self@ =~= old_view.insert(key@, value@));
        }
    }

    /// The translation of `key`, if there is one.
    pub fn get(&self, key: &str) -> (r: Option<&str>)
        ensures
            match r {
                Some(s) => self@.contains_key(key@) && s@ == self@[key@],
                None => !self@.contains_key(key@),
            },
    {
        proof {
            use_type_invariant(self);
        }
        let i = self.position(&vec_of(key));
        if i < self.entries.len() {
            proof {
                assert(self.key_seq().contains(key@));
                assert(self.key_seq().index_of(key@) == i);
            }
            Some(self.entries[i].1.as_str())
        } else {
            None
        }
    }

    /// The translation of `key`, or `key` itself when there is none.
    pub fn get_or_default<'a>(&'a self, key: &'a str) -> (r: &'a str)
        ensures
            r@ == (if self@.contains_key(key@) {
                self@[key@]
            } else {
                key@
            }),
    {
        match self.get(key) {
            Some(s) => s,
            None => key,
        }
    }

    /// The keys, each once.
    pub fn keys(&self) -> (r: Vec<String>)
        ensures
            r@.len() == self@.dom().len(),
            forall|i: int| 0 <= i < r@.len() ==> self@.contains_key(#[trigger] r@[i]@),
            forall|k: Seq<char>|
                self@.contains_key(k) ==> exists|i: int| 0 <= i < r@.len() && r@[i]@ == k,
            forall|i: int, j: int| 0 <= i < j < r@.len() ==> r@[i]@ != r@[j]@,
    {
        proof {
            use_type_invariant(self);
            self.lemma_len();
        }
        let mut out: Vec<String> = Vec::new();
        let mut i: usize = 0;
        while i < self.entries.len()
            invariant
                i <= self.entries@.len(),
                self.key_seq().no_duplicates(),
                out@.len() == i,
                forall|j: int| 0 <= j < i ==> #[trigger] out@[j]@ == self.key_seq()[j],
            decreases self.entries.len() - i,
        {
            out.push(self.entries[i].0.clone());
            i += 1;
        }
        proof {
            assert forall|k: Seq<char>| self@.contains_key(k) implies exists|i: int|
                0 <= i < out@.len() && out@[i]@ == k by {
                let j = self.key_seq().index_of(k);
                assert(out@[j]@ == k);
            }
            assert forall|i: int| 0 <= i < out@.len() implies self@.contains_key(
                #[trigger] out@[i]@,
            ) by {
                assert(self.key_seq()[i] == out@[i]@);
            }
        }
        out
    }

    proof fn lemma_len(&self)
        requires
            self.key_seq().no_duplicates(),
        ensures
            self@.dom().len() == self.entries@.len(),
            self@.dom().finite(),
    {
        let ks = self.key_seq();
        ks.unique_seq_to_set();
        assert(self@.dom() =~= ks.to_set());
        vstd::seq_lib::seq_to_set_is_finite(ks);
    }

    /// Number of translations.
    pub fn len(&self) -> (r: usize)
        ensures
            r == self@.dom().len(),
    {
        proof {
            use_type_invariant(self);
            self.lemma_len();
        }
        self.entries.len()
    }

    /// No translations at all.
    pub fn is_empty(&self) -> (r: bool)
        ensures
            r == (self@.dom().len() == 0),
    {
        proof {
            use_type_invariant(self);
            self.lemma_len();
        }
        self.entries.len() == 0
    }

    /// Builds the translations from a document's events: see `load_step`.
    pub fn from_events(events: &Vec<XmlEvent>) -> (r: Result<Self, LoadError>)
        ensures
            load_result_view(r) == load_events(event_views(events@), Map::empty(), None),
    {
        let ghost evs = event_views(events@);
        let tag_bytes = string_tag_bytes();
        let key_bytes = name_key_bytes();
        let mut bundle = Self::new();
        let mut key: Option<String> = None;
        let mut k: usize = 0;
        assert(evs.skip(0) =~= evs);
        while k < events.len()
            invariant
                k <= events@.len(),
                evs == event_views(events@),
                tag_bytes@ == string_tag(),
                key_bytes@ == name_key(),
                load_events(evs, Map::empty(), None) == load_events(
                    evs.skip(k as int),
                    bundle@,
                    string_opt_view(&key),
                ),
            decreases events.len() - k,
        {
            let ghost rest = evs.skip(k as int);
            assert(rest[0] == events@[k as int]@);
            assert(rest.drop_first() =~= evs.skip(k + 1));
            match &events[k] {
                XmlEvent::Start(name, attrs) => {
                    if bytes_eq(name, &tag_bytes) {
                        match select_key(attrs, key, &key_bytes) {
                            Ok(next) => {
                                key = next;
                            },
                            Err(e) => {
                                return Err(e);
                            },
                        }
                    }
                },
                XmlEvent::Text(t) => {
                    match &key {
                        Some(kk) => {
                            match t {
                                Some(text) => {
                                    bundle.insert(kk.clone(), text.clone());
                                },
                                None => {
                                    return Err(LoadError::BadEscape);
                                },
                            }
                        },
                        None => {},
                    }
                },
                XmlEvent::End(name) => {
                    if bytes_eq(name, &tag_bytes) {
                        key = None;
                    }
                },
                XmlEvent::Eof => {
                    return Ok(bundle);
                },
                XmlEvent::Fault => {
                    return Err(LoadError::Malformed);
                },
                XmlEvent::Other => {},
            }
            k += 1;
        }
        Err(LoadError::Unterminated)
    }

    /// Reads a translation file: each `string` element's `name` attribute
    /// is a key and its text the translation.
    pub fn from_xml(xml_content: &str) -> (r: Result<Self, LoadError>)
        ensures
            load_result_view(r) == bundle_of_xml(xml_content@),
    {
        let mut cursor = xml_open(xml_content);
        let cap = xml_content.as_bytes().len();
        let mut fuel = cap;
        let mut events: Vec<XmlEvent> = Vec::new();
        let ghost src = xml_content@;
        let ghost total: nat = cap as nat + 1;
        assert(event_views(events@) =~= Seq::<XmlEventView>::empty());
        loop
            invariant_except_break
                cursor@.0 == src,
                cursor@.1 + fuel + 1 == total,
                xml_stream(src, 0, total) == event_views(events@) + xml_stream(
                    src,
                    cursor@.1,
                    (fuel + 1) as nat,
                ),
            invariant
                total == vstd::utf8::encode_utf8(src).len() + 1,
            ensures
                xml_stream(src, 0, total) == event_views(events@),
            decreases fuel,
        {
            let ghost pos = cursor@.1;
            let ghost before = event_views(events@);
            let ev = xml_next(&mut cursor);
            let terminal = match ev {
                XmlEvent::Eof => true,
                XmlEvent::Fault => true,
                _ => false,
            };
            events.push(ev);
            assert(event_views(events@) =~= before.push(ev@));
            if terminal {
                assert(xml_stream(src, pos, (fuel + 1) as nat) =~= seq![ev@]);
                assert(xml_stream(src, 0, total) =~= event_views(events@));
                break;
            }
            if fuel == 0 {
                assert(xml_stream(src, pos + 1, 0) =~= Seq::<XmlEventView>::empty());
                assert(xml_stream(src, pos, 1) =~= seq![ev@]);
                assert(xml_stream(src, 0, total) =~= event_views(events@));
                break;
            }
            fuel -= 1;
            assert(xml_stream(src, pos, (fuel + 2) as nat) =~= seq![ev@] + xml_stream(
                src,
                pos + 1,
                (fuel + 1) as nat,
            ));
            assert(xml_stream(src, 0, total) =~= event_views(events@) + xml_stream(
                src,
                cursor@.1,
                (fuel + 1) as nat,
            ));
        }
        Self::from_events(&events)
    }
}

/// The key that a `string` start tag's attributes select, starting from
/// `key`: see `apply_attributes`.
fn select_key(attrs: &Vec<RawAttribute>, key: Option<String>, key_bytes: &Vec<u8>) -> (r: Result<
    Option<String>,
    LoadError,
>)
    requires
        key_bytes@ == name_key(),
    ensures
        apply_attributes(attribute_views(attrs@), string_opt_view(&key)) == key_result_view(&r),
{
    let ghost views = attribute_views(attrs@);
    let ghost start = string_opt_view(&key);
    let mut current = key;
    let mut j: usize = 0;
    assert(views.skip(0) =~= views);
    while j < attrs.len()
        invariant
            j <= attrs@.len(),
            views == attribute_views(attrs@),
            start == string_opt_view(&key),
            key_bytes@ == name_key(),
            apply_attributes(views, start) == apply_attributes(
                views.skip(j as int),
                string_opt_view(&current),
            ),
        decreases attrs.len() - j,
    {
        assert(views.skip(j as int)[0] == attribute_view(attrs@[j as int]));
        assert(views.skip(j as int).drop_first() =~= views.skip(j + 1));
        match &attrs[j] {
            None => {
                assert(apply_attributes(views.skip(j as int), string_opt_view(&current)) == Err::<
                    Option<Seq<char>>,
                    LoadError,
                >(LoadError::BadAttribute));
                return Err(LoadError::BadAttribute);
            },
            Some((akey, avalue)) => {
                if bytes_eq(akey, key_bytes) {
                    match utf8_string(avalue.clone()) {
                        Some(s) => {
                            current = Some(s);
                        },
                        None => {
                            return Err(LoadError::InvalidUtf8);
                        },
                    }
                }
            },
        }
        j += 1;
    }
    assert(views.skip(j as int) =~= Seq::<AttributeView>::empty());
    Ok(current)
}

} // verus!

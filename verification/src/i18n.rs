//! Translations: a catalog of Fluent bundles, one per language code, and
//! the current language. A message is looked up in the current language
//! first, then in English, and the key itself is the answer when neither
//! bundle has a value for it.
use vstd::prelude::*;
use fluent_bundle::{FluentArgs, FluentBundle, FluentResource, FluentValue};
use intl_memoizer::IntlLangMemoizer;
use unic_langid::LanguageIdentifier;
use crate::text::{chars_of, str_eq, string_from};

verus! {

// ---------------------------------------------------------------------
// Fluent, as far as this library uses it
// ---------------------------------------------------------------------

#[verifier::external_type_specification]
#[verifier::external_body]
pub struct ExFluentResource(FluentResource);

#[verifier::external_type_specification]
#[verifier::external_body]
pub struct ExIntlLangMemoizer(IntlLangMemoizer);

#[verifier::external_type_specification]
#[verifier::external_body]
#[verifier::reject_recursive_types(R)]
#[verifier::reject_recursive_types(M)]
pub struct ExFluentBundle<R, M>(fluent_bundle::bundle::FluentBundle<R, M>);

/// The FTL source text a resource holds (`FluentResource::source`).
pub uninterp spec fn resource_text(r: FluentResource) -> Seq<char>;

/// Whether the FTL parser accepts `source` without errors.
pub uninterp spec fn ftl_parses(source: Seq<char>) -> bool;

/// Whether `code` parses as a language identifier.
pub uninterp spec fn langid_parses(code: Seq<char>) -> bool;

/// The text of the language identifier that `code` parses to: its
/// canonical form (unic-langid lowercases the language subtag, for one,
/// and reads `_` as a separator), so that different codes may give the
/// same identifier.
pub uninterp spec fn langid_text(code: Seq<char>) -> Seq<char>;

/// The text of the language identifier a bundle was made for (the one
/// identifier its `locales` hold).
pub uninterp spec fn bundle_locale(b: FluentBundle<FluentResource>) -> Seq<char>;

/// The FTL sources added to a bundle, in the order they were added.
pub uninterp spec fn bundle_resources(b: FluentBundle<FluentResource>) -> Seq<Seq<char>>;

/// What Fluent formats for message `key` of a bundle for `locale` holding
/// the FTL `resources`, with the named arguments `args` (or none): `None`
/// when the bundle has no message `key` or the message has no value.
pub uninterp spec fn fluent_format(
    locale: Seq<char>,
    resources: Seq<Seq<char>>,
    key: Seq<char>,
    args: Option<Seq<(Seq<char>, Seq<char>)>>,
) -> Option<Seq<char>>;

/// `FluentResource::try_new`: parses FTL source text. `None` exactly when
/// the parser reports errors (the partially parsed resource is dropped);
/// the resource keeps the source it was made from.
#[verifier::external_body]
fn parse_ftl(source: String) -> (r: Option<FluentResource>)
    ensures
        r is Some <==> ftl_parses(source@),
        r matches Some(res) ==> resource_text(res) == source@,
{
    FluentResource::try_new(source).ok()
}

/// `FluentBundle::new` for the single locale that `code` parses to
/// (`str::parse::<LanguageIdentifier>` converts the code). `None` when the
/// code does not parse; a new bundle is made for the parsed identifier
/// (not the code as written) and holds no resources.
#[verifier::external_body]
fn new_bundle(code: &str) -> (r: Option<FluentBundle<FluentResource>>)
    ensures
        r is Some <==> langid_parses(code@),
        r matches Some(b) ==> bundle_locale(b) == langid_text(code@) && bundle_resources(b).len()
            == 0,
{
    code.parse::<LanguageIdentifier>().ok().map(|l| FluentBundle::new(vec![l]))
}

/// `FluentBundle::add_resource`: the resource is appended to the bundle's
/// resources (messages already defined keep their first definition, which
/// `fluent_format` accounts for); the reported overrides are ignored.
#[verifier::external_body]
fn add_resource(b: &mut FluentBundle<FluentResource>, res: FluentResource)
    ensures
        bundle_locale(*final(b)) == bundle_locale(*old(b)),
        bundle_resources(*final(b)) == bundle_resources(*old(b)).push(resource_text(res)),
{
    let _ = b.add_resource(res);
}

/// The views of argument pairs.
pub open spec fn arg_views(args: Seq<(&str, &str)>) -> Seq<(Seq<char>, Seq<char>)> {
    args.map_values(|p: (&str, &str)| (p.0@, p.1@))
}

pub open spec fn opt_arg_views(args: Option<&[(&str, &str)]>) -> Option<
    Seq<(Seq<char>, Seq<char>)>,
> {
    match args {
        Some(a) => Some(arg_views(a@)),
        None => None,
    }
}

/// An argument list is given, and it is empty.
pub open spec fn empty_args(args: Option<&[(&str, &str)]>) -> bool {
    match args {
        Some(a) => a@.len() == 0,
        None => false,
    }
}

pub open spec fn opt_view(s: Option<String>) -> Option<Seq<char>> {
    match s {
        Some(x) => Some(x@),
        None => None,
    }
}

/// `FluentBundle::format_pattern` on the value of message `key`, reached
/// through `get_message` and `FluentMessage::value`; the arguments are
/// converted into `FluentArgs` with string values. The result is what
/// `fluent_format` names for the bundle's locale and resources. An empty
/// argument list formats as no arguments at all: the resolver only ever
/// looks a variable up in the arguments, and finds nothing in either.
#[verifier::external_body]
fn format_message(
    b: &FluentBundle<FluentResource>,
    key: &str,
    args: Option<&[(&str, &str)]>,
) -> (r: Option<String>)
    ensures
        opt_view(r) == fluent_format(
            bundle_locale(*b),
            bundle_resources(*b),
            key@,
            opt_arg_views(args),
        ),
        empty_args(args) ==> opt_view(r) == fluent_format(
            bundle_locale(*b),
            bundle_resources(*b),
            key@,
            None,
        ),
{
    let fargs = args.map(|pairs| {
        let mut fa = FluentArgs::new();
        for (k, v) in pairs.iter() {
            fa.set(*k, FluentValue::from(*v));
        }
        fa
    });
    let pattern = b.get_message(key)?.value()?;
    let mut errors = vec![];
    Some(b.format_pattern(pattern, fargs.as_ref(), &mut errors).to_string())
}

// ---------------------------------------------------------------------
// The catalog
// ---------------------------------------------------------------------

/// The language every lookup falls back to.
pub open spec fn english() -> Seq<char> {
    seq!['e', 'n']
}

/// One language of the catalog: its code and its bundle.
pub struct LocaleBundle {
    code: String,
    bundle: FluentBundle<FluentResource>,
}

/// The translations of the application and its current language.
pub struct Catalog {
    bundles: Vec<LocaleBundle>,
    current: String,
}

/// What a catalog holds: for each language its code and the FTL sources of
/// its bundle, and the current language code.
pub struct CatalogView {
    pub languages: Seq<(Seq<char>, Seq<Seq<char>>)>,
    pub current: Seq<char>,
}

impl CatalogView {
    /// The codes of the languages, in catalog order.
    pub open spec fn codes(self) -> Seq<Seq<char>> {
        self.languages.map_values(|l: (Seq<char>, Seq<Seq<char>>)| l.0)
    }

    /// Whether `code` is one of the catalog's languages.
    pub open spec fn has(self, code: Seq<char>) -> bool {
        exists|i: int| 0 <= i < self.languages.len() && #[trigger] self.languages[i].0 == code
    }

    /// The position of `code` among the languages.
    pub open spec fn index_of(self, code: Seq<char>) -> int {
        choose|i: int| 0 <= i < self.languages.len() && #[trigger] self.languages[i].0 == code
    }

    /// No code occurs twice.
    pub open spec fn distinct_codes(self) -> bool {
        distinct_codes(self.languages)
    }

    /// What the bundle of language `code` (made for the identifier `code`
    /// parses to) formats for `key`.
    pub open spec fn format_in(
        self,
        code: Seq<char>,
        key: Seq<char>,
        args: Option<Seq<(Seq<char>, Seq<char>)>>,
    ) -> Option<Seq<char>> {
        if self.has(code) {
            fluent_format(langid_text(code), self.languages[self.index_of(code)].1, key, args)
        } else {
            None
        }
    }

    /// The translation of `key`: the current language's message, else the
    /// English one (when the current language is not English), else the key.
    pub open spec fn translate(
        self,
        key: Seq<char>,
        args: Option<Seq<(Seq<char>, Seq<char>)>>,
    ) -> Seq<char> {
        match self.format_in(self.current, key, args) {
            Some(s) => s,
            None => if self.current != english() {
                match self.format_in(english(), key, args) {
                    Some(s) => s,
                    None => key,
                }
            } else {
                key
            },
        }
    }

    /// The catalog after asking for language `code`: it becomes current
    /// when the catalog has it, and nothing changes otherwise.
    pub open spec fn with_language(self, code: Seq<char>) -> CatalogView {
        if self.has(code) {
            CatalogView { current: code, ..self }
        } else {
            self
        }
    }
}

/// No language code occurs twice in `langs`.
pub open spec fn distinct_codes(langs: Seq<(Seq<char>, Seq<Seq<char>>)>) -> bool {
    forall|i: int, j: int|
        0 <= i < langs.len() && 0 <= j < langs.len() && i != j ==> #[trigger] langs[i].0
            != #[trigger] langs[j].0
}

/// Code and FTL sources of each bundle.
pub closed spec fn bundle_views(bs: Seq<LocaleBundle>) -> Seq<(Seq<char>, Seq<Seq<char>>)> {
    bs.map_values(|b: LocaleBundle| (b.code@, bundle_resources(b.bundle)))
}

impl View for Catalog {
    type V = CatalogView;

    closed spec fn view(&self) -> CatalogView {
        CatalogView {
            languages: bundle_views(self.bundles@),
            current: self.current@,
        }
    }
}

impl Catalog {
    /// Each bundle was made for the identifier its language's code parses
    /// to, and no code occurs twice.
    #[verifier::type_invariant]
    spec fn wf(&self) -> bool {
        &&& forall|i: int|
            0 <= i < self.bundles@.len() ==> bundle_locale(#[trigger] self.bundles@[i].bundle)
                == langid_text(self.bundles@[i].code@)
        &&& self@.distinct_codes()
    }
}

/// Why a catalog could not be built.
#[derive(Debug)]
pub enum CatalogError {
    /// The language code does not parse as a language identifier.
    InvalidLanguage(String),
    /// The FTL source of this language has syntax errors.
    InvalidFtl(String),
}

/// The catalog that `sources` builds, one language after the other, as
/// long as every code and every source parses: a code seen before gets the
/// later source in place, a new code is appended.
pub open spec fn built_from(sources: Seq<(Seq<char>, Seq<char>)>) -> Seq<(Seq<char>, Seq<Seq<char>>)>
    decreases sources.len(),
{
    if sources.len() == 0 {
        Seq::empty()
    } else {
        let prev = built_from(sources.drop_last());
        let (code, src) = sources.last();
        insert_language(prev, code, src)
    }
}

/// `langs` with language `code` holding only the resource `src`.
pub open spec fn insert_language(
    langs: Seq<(Seq<char>, Seq<Seq<char>>)>,
    code: Seq<char>,
    src: Seq<char>,
) -> Seq<(Seq<char>, Seq<Seq<char>>)> {
    let entry = (code, seq![src]);
    if exists|i: int| 0 <= i < langs.len() && #[trigger] langs[i].0 == code {
        let i = choose|i: int| 0 <= i < langs.len() && #[trigger] langs[i].0 == code;
        langs.update(i, entry)
    } else {
        langs.push(entry)
    }
}

pub open spec fn source_views(sources: Seq<(String, String)>) -> Seq<(Seq<char>, Seq<char>)> {
    sources.map_values(|p: (String, String)| (p.0@, p.1@))
}

/// Whether the code and the source at position `i` parse.
pub open spec fn parses_at(sources: Seq<(Seq<char>, Seq<char>)>, i: int) -> bool {
    langid_parses(sources[i].0) && ftl_parses(sources[i].1)
}

/// Position `i` is the first whose code or source does not parse.
pub open spec fn fails_first_at(sources: Seq<(Seq<char>, Seq<char>)>, i: int) -> bool {
    &&& 0 <= i < sources.len()
    &&& !parses_at(sources, i)
    &&& forall|j: int| 0 <= j < i ==> #[trigger] parses_at(sources, j)
}

/// `e` names the code of `source` and what about it failed: the code
/// itself, or else the FTL source.
pub open spec fn reports(e: CatalogError, source: (Seq<char>, Seq<char>)) -> bool {
    match e {
        CatalogError::InvalidLanguage(code) => code@ == source.0 && !langid_parses(source.0),
        CatalogError::InvalidFtl(code) => code@ == source.0 && langid_parses(source.0)
            && !ftl_parses(source.1),
    }
}

/// Whether every code and every source of `sources` parses.
pub open spec fn all_parse(sources: Seq<(Seq<char>, Seq<char>)>) -> bool {
    forall|i: int|
        0 <= i < sources.len() ==> langid_parses(#[trigger] sources[i].0) && ftl_parses(
            sources[i].1,
        )
}

impl Catalog {
    /// Builds the catalog from `(language code, FTL source)` pairs; the
    /// current language is English. It fails on the first code that does not
    /// parse as a language identifier or whose source has syntax errors.
    pub fn new(sources: Vec<(String, String)>) -> (r: Result<Catalog, CatalogError>)
        ensures
            all_parse(source_views(sources@)) <==> r is Ok,
            r matches Ok(c) ==> c@.languages == built_from(source_views(sources@))
                && c@.current == english(),
            r matches Err(e) ==> exists|i: int|
                #[trigger] fails_first_at(source_views(sources@), i) && reports(
                    e,
                    source_views(sources@)[i],
                ),
    {
        let mut bundles: Vec<LocaleBundle> = Vec::new();
        let ghost sv = source_views(sources@);
        let mut i: usize = 0;
        while i < sources.len()
            invariant
                i <= sources.len(),
                sv == source_views(sources@),
                forall|j: int| 0 <= j < i ==> #[trigger] parses_at(sv, j),
                forall|k: int|
                    0 <= k < bundles@.len() ==> bundle_locale(#[trigger] bundles@[k].bundle)
                        == langid_text(bundles@[k].code@),
                bundle_views(bundles@) == built_from(sv.take(i as int)),
                distinct_codes(bundle_views(bundles@)),
            decreases sources.len() - i,
        {
            let code = sources[i].0.as_str();
            let b = match new_bundle(code) {
                Some(b) => b,
                None => {
                    proof {
                        assert(fails_first_at(sv, i as int));
                    }
                    return Err(CatalogError::InvalidLanguage(string_from(code)));
                },
            };
            let src = string_from(sources[i].1.as_str());
            let ghost src_view = src@;
            let res = match parse_ftl(src) {
                Some(res) => res,
                None => {
                    proof {
                        assert(fails_first_at(sv, i as int));
                    }
                    return Err(CatalogError::InvalidFtl(string_from(code)));
                },
            };
            let mut b = b;
            add_resource(&mut b, res);
            proof {
                assert(src_view == sv[i as int].1);
                assert(bundle_resources(b) =~= seq![sv[i as int].1]);
            }
            let entry = LocaleBundle { code: string_from(code), bundle: b };
            let ghost before = bundles@;
            let pos = position_in(&bundles, code);
            proof {
                assert(sv.take(i + 1).drop_last() =~= sv.take(i as int));
                assert(sv.take(i + 1).last() == sv[i as int]);
            }
            match pos {
                Some(p) => {
                    bundles.set(p, entry);
                    proof {
                        lemma_insert_existing(before, entry, p as int, sv[i as int].0, sv[i as int].1);
                    }
                },
                None => {
                    bundles.push(entry);
                    proof {
                        lemma_insert_new(before, entry, sv[i as int].0, sv[i as int].1);
                    }
                },
            }
            i += 1;
        }
        proof {
            assert(sv.take(sources.len() as int) =~= sv);
            assert(all_parse(sv)) by {
                assert forall|j: int| 0 <= j < sv.len() implies langid_parses(#[trigger] sv[j].0)
                    && ftl_parses(sv[j].1) by {
                    assert(parses_at(sv, j));
                }
            }
        }
        let c = Catalog { bundles, current: english_code() };
        Ok(c)
    }
}

proof fn lemma_insert_existing(
    before: Seq<LocaleBundle>,
    entry: LocaleBundle,
    p: int,
    code: Seq<char>,
    src: Seq<char>,
)
    requires
        0 <= p < before.len(),
        before[p].code@ == code,
        entry.code@ == code,
        bundle_resources(entry.bundle) == seq![src],
        distinct_codes(bundle_views(before)),
    ensures
        bundle_views(before.update(p, entry)) == insert_language(bundle_views(before), code, src),
        distinct_codes(bundle_views(before.update(p, entry))),
{
    let langs = bundle_views(before);
    assert(langs[p].0 == code);
    let i = choose|i: int| 0 <= i < langs.len() && #[trigger] langs[i].0 == code;
    assert(i == p) by {
        if i != p {
            assert(langs[i].0 != langs[p].0);
        }
    }
    assert(bundle_views(before.update(p, entry)) =~= langs.update(p, (code, seq![src])));
}

proof fn lemma_insert_new(before: Seq<LocaleBundle>, entry: LocaleBundle, code: Seq<char>, src: Seq<char>)
    requires
        forall|k: int| 0 <= k < before.len() ==> before[k].code@ != code,
        entry.code@ == code,
        bundle_resources(entry.bundle) == seq![src],
        distinct_codes(bundle_views(before)),
    ensures
        bundle_views(before.push(entry)) == insert_language(bundle_views(before), code, src),
        distinct_codes(bundle_views(before.push(entry))),
{
    let langs = bundle_views(before);
    assert(!exists|i: int| 0 <= i < langs.len() && #[trigger] langs[i].0 == code) by {
        assert forall|i: int| 0 <= i < langs.len() implies #[trigger] langs[i].0 != code by {
            assert(langs[i].0 == before[i].code@);
        }
    }
    assert(bundle_views(before.push(entry)) =~= langs.push((code, seq![src])));
    let nl = bundle_views(before.push(entry));
    assert forall|a: int, b: int|
        0 <= a < nl.len() && 0 <= b < nl.len() && a != b implies #[trigger] nl[a].0
        != #[trigger] nl[b].0 by {
        if a < langs.len() && b < langs.len() {
            assert(nl[a] == langs[a]);
            assert(nl[b] == langs[b]);
        } else if a == langs.len() {
            assert(nl[b] == langs[b]);
        } else {
            assert(nl[a] == langs[a]);
        }
    }
}

/// `"en"`.
fn english_code() -> (r: String)
    ensures
        r@ == english(),
{
    let mut s = String::new();
    crate::text::push_char(&mut s, 'e');
    crate::text::push_char(&mut s, 'n');
    s
}

/// Where language `code` stands among `bundles`.
fn position_in(bundles: &Vec<LocaleBundle>, code: &str) -> (r: Option<usize>)
    ensures
        r matches Some(p) ==> p < bundles@.len() && bundles@[p as int].code@ == code@,
        r is None ==> forall|k: int| 0 <= k < bundles@.len() ==> bundles@[k].code@ != code@,
{
    let mut k: usize = 0;
    while k < bundles.len()
        invariant
            k <= bundles.len(),
            forall|j: int| 0 <= j < k ==> bundles@[j].code@ != code@,
        decreases bundles.len() - k,
    {
        if str_eq(bundles[k].code.as_str(), code) {
            return Some(k);
        }
        k += 1;
    }
    None
}

impl Catalog {
    proof fn lemma_index(&self, p: int, code: Seq<char>)
        requires
            self.wf(),
            0 <= p < self.bundles@.len(),
            self.bundles@[p].code@ == code,
        ensures
            self@.has(code),
            self@.index_of(code) == p,
            self@.languages[p].1 == bundle_resources(self.bundles@[p].bundle),
    {
        let v = self@;
        assert(v.languages[p].0 == code);
        let i = v.index_of(code);
        if i != p {
            assert(v.languages[i].0 != v.languages[p].0);
        }
    }

    proof fn lemma_absent(&self, code: Seq<char>)
        requires
            forall|k: int| 0 <= k < self.bundles@.len() ==> self.bundles@[k].code@ != code,
        ensures
            !self@.has(code),
    {
        assert forall|i: int| 0 <= i < self@.languages.len() implies #[trigger] self@.languages[
            i].0 != code by {
            assert(self@.languages[i].0 == self.bundles@[i].code@);
        }
    }

    /// What the bundle of language `code` formats for `key`.
    fn format_in(&self, code: &str, key: &str, args: Option<&[(&str, &str)]>) -> (r: Option<
        String,
    >)
        ensures
            opt_view(r) == self@.format_in(code@, key@, opt_arg_views(args)),
            empty_args(args) ==> opt_view(r) == self@.format_in(code@, key@, None),
    {
        proof {
            use_type_invariant(self);
        }
        match position_in(&self.bundles, code) {
            Some(p) => {
                proof {
                    self.lemma_index(p as int, code@);
                }
                format_message(&self.bundles[p].bundle, key, args)
            },
            None => {
                proof {
                    self.lemma_absent(code@);
                }
                None
            },
        }
    }

    fn translate(&self, key: &str, args: Option<&[(&str, &str)]>) -> (r: String)
        ensures
            r@ == self@.translate(key@, opt_arg_views(args)),
            empty_args(args) ==> r@ == self@.translate(key@, None),
    {
        if let Some(s) = self.format_in(self.current.as_str(), key, args) {
            return s;
        }
        let en = english_code();
        if !str_eq(self.current.as_str(), en.as_str()) {
            if let Some(s) = self.format_in(en.as_str(), key, args) {
                return s;
            }
        }
        string_from(key)
    }
}

/// The translation of `key` in the current language, falling back to
/// English and then to the key itself.
pub fn t(catalog: &Catalog, key: &str) -> (r: String)
    ensures
        r@ == catalog@.translate(key@, None),
{
    catalog.translate(key, None)
}

/// Like `t`, with named arguments for the message's placeables; with no
/// arguments it is `t`.
pub fn t_with_args(catalog: &Catalog, key: &str, args: &[(&str, &str)]) -> (r: String)
    ensures
        r@ == catalog@.translate(key@, Some(arg_views(args@))),
        args@.len() == 0 ==> r@ == catalog@.translate(key@, None),
{
    catalog.translate(key, Some(args))
}

/// Makes `lang` the current language when the catalog has it; says
/// whether it did (the caller then remembers the choice).
pub fn set_language(catalog: &mut Catalog, lang: &str) -> (changed: bool)
    ensures
        changed == old(catalog)@.has(lang@),
        final(catalog)@ == old(catalog)@.with_language(lang@),
{
    proof {
        use_type_invariant(&*catalog);
    }
    match position_in(&catalog.bundles, lang) {
        Some(p) => {
            proof {
                catalog.lemma_index(p as int, lang@);
            }
            catalog.current = string_from(lang);
            proof {
                assert(catalog@ =~= old(catalog)@.with_language(lang@));
            }
            true
        },
        None => {
            proof {
                catalog.lemma_absent(lang@);
            }
            false
        },
    }
}

/// The current language code.
pub fn current_language(catalog: &Catalog) -> (r: String)
    ensures
        r@ == catalog@.current,
{
    string_from(catalog.current.as_str())
}

/// The codes of the catalog's languages.
pub fn available_languages(catalog: &Catalog) -> (r: Vec<String>)
    ensures
        r@.len() == catalog@.languages.len(),
        forall|i: int| 0 <= i < r@.len() ==> #[trigger] r@[i]@ == catalog@.languages[i].0,
{
    let mut out: Vec<String> = Vec::new();
    let mut i: usize = 0;
    while i < catalog.bundles.len()
        invariant
            i <= catalog.bundles.len(),
            out@.len() == i,
            forall|k: int| 0 <= k < i ==> #[trigger] out@[k]@ == catalog@.languages[k].0,
        decreases catalog.bundles.len() - i,
    {
        out.push(string_from(catalog.bundles[i].code.as_str()));
        proof {
            assert(catalog@.languages[i as int].0 == catalog.bundles@[i as int].code@);
        }
        i += 1;
    }
    out
}

/// The label shown for a language code in the language switcher.
pub open spec fn language_label_spec(code: Seq<char>) -> Seq<char> {
    if code == seq!['e', 'n'] {
        seq!['\u{1f1ec}', '\u{1f1e7}', ' ', 'E', 'N']
    } else if code == seq!['c', 's'] {
        seq!['\u{1f1e8}', '\u{1f1ff}', ' ', 'C', 'S']
    } else {
        seq!['?', '?']
    }
}

/// The label shown for a language code: a flag and the code in capitals
/// for the languages the application ships, `??` otherwise.
pub fn language_label(code: &str) -> (r: &'static str)
    ensures
        r@ == language_label_spec(code@),
{
    let v = chars_of(code);
    if v.len() == 2 && v[0] == 'e' && v[1] == 'n' {
        assert(v@ =~= seq!['e', 'n']);
        proof {
            reveal_strlit("\u{1f1ec}\u{1f1e7} EN");
        }
        "\u{1f1ec}\u{1f1e7} EN"
    } else if v.len() == 2 && v[0] == 'c' && v[1] == 's' {
        assert(v@ =~= seq!['c', 's']);
        proof {
            reveal_strlit("\u{1f1e8}\u{1f1ff} CS");
        }
        "\u{1f1e8}\u{1f1ff} CS"
    } else {
        assert(v@ != seq!['e', 'n']);
        assert(v@ != seq!['c', 's']);
        proof {
            reveal_strlit("??");
        }
        "??"
    }
}

// ---------------------------------------------------------------------
// Laws
// ---------------------------------------------------------------------

/// Asking for a language the catalog has makes it current; asking for any
/// other language changes nothing at all.
pub proof fn law_set_language(c: CatalogView, code: Seq<char>)
    ensures
        c.has(code) ==> c.with_language(code).current == code,
        c.has(code) ==> c.with_language(code).languages == c.languages,
        !c.has(code) ==> c.with_language(code) == c,
{
}

/// Asking twice for the same language is the same as asking once.
pub proof fn law_set_language_idempotent(c: CatalogView, code: Seq<char>)
    ensures
        c.with_language(code).with_language(code) == c.with_language(code),
{
}

/// When the current language is one of the catalog's, it stays so whatever
/// language is asked for next.
pub proof fn law_current_stays_available(c: CatalogView, code: Seq<char>)
    requires
        c.has(c.current),
    ensures
        c.with_language(code).has(c.with_language(code).current),
{
    if c.has(code) {
        let i = choose|i: int| 0 <= i < c.languages.len() && #[trigger] c.languages[i].0 == code;
        assert(c.with_language(code).languages[i].0 == code);
    }
}

/// The current language's message is the translation whenever it has one.
pub proof fn law_current_language_first(
    c: CatalogView,
    key: Seq<char>,
    args: Option<Seq<(Seq<char>, Seq<char>)>>,
)
    requires
        c.format_in(c.current, key, args) is Some,
    ensures
        c.translate(key, args) == c.format_in(c.current, key, args)->Some_0,
{
}

/// A message missing in the current language comes from English.
pub proof fn law_english_fallback(
    c: CatalogView,
    key: Seq<char>,
    args: Option<Seq<(Seq<char>, Seq<char>)>>,
)
    requires
        c.format_in(c.current, key, args) is None,
        c.format_in(english(), key, args) is Some,
    ensures
        c.translate(key, args) == c.format_in(english(), key, args)->Some_0,
{
}

/// A key that neither the current language nor English can format is
/// its own translation.
pub proof fn law_missing_key_is_echoed(
    c: CatalogView,
    key: Seq<char>,
    args: Option<Seq<(Seq<char>, Seq<char>)>>,
)
    requires
        c.format_in(c.current, key, args) is None,
        c.format_in(english(), key, args) is None,
    ensures
        c.translate(key, args) == key,
{
}

/// A language the catalog lacks formats nothing, so with such a current
/// language every translation is the English one or the key.
pub proof fn law_unknown_current_uses_english(
    c: CatalogView,
    key: Seq<char>,
    args: Option<Seq<(Seq<char>, Seq<char>)>>,
)
    requires
        !c.has(c.current),
    ensures
        c.translate(key, args) == (match c.format_in(english(), key, args) {
            Some(s) => s,
            None => key,
        }),
{
}

/// Every language named by the sources a catalog is built from is one of
/// its languages, and no code occurs twice.
pub proof fn law_built_catalog_has_every_language(sources: Seq<(Seq<char>, Seq<char>)>, i: int)
    requires
        0 <= i < sources.len(),
    ensures
        distinct_codes(built_from(sources)),
        exists|k: int|
            0 <= k < built_from(sources).len() && #[trigger] built_from(sources)[k].0
                == sources[i].0,
    decreases sources.len(),
{
    lemma_built_distinct(sources);
    let prev = sources.drop_last();
    let (code, src) = sources.last();
    let p = built_from(prev);
    if i < sources.len() - 1 {
        law_built_catalog_has_every_language(prev, i);
        let k = choose|k: int| 0 <= k < p.len() && #[trigger] p[k].0 == prev[i].0;
        if exists|j: int| 0 <= j < p.len() && #[trigger] p[j].0 == code {
            let j = choose|j: int| 0 <= j < p.len() && #[trigger] p[j].0 == code;
            assert(built_from(sources)[k].0 == sources[i].0);
        } else {
            assert(built_from(sources)[k].0 == sources[i].0);
        }
    } else {
        if exists|j: int| 0 <= j < p.len() && #[trigger] p[j].0 == code {
            let j = choose|j: int| 0 <= j < p.len() && #[trigger] p[j].0 == code;
            assert(built_from(sources)[j].0 == sources[i].0);
        } else {
            assert(built_from(sources)[p.len() as int].0 == sources[i].0);
        }
    }
}

/// A catalog built from sources that name English starts on a language it
/// has; with `law_current_stays_available` its current language then stays
/// one of its languages whatever language is asked for.
pub proof fn law_built_catalog_starts_available(sources: Seq<(Seq<char>, Seq<char>)>, i: int)
    requires
        0 <= i < sources.len(),
        sources[i].0 == english(),
    ensures
        (CatalogView { languages: built_from(sources), current: english() }).has(english()),
{
    law_built_catalog_has_every_language(sources, i);
    let k = choose|k: int|
        0 <= k < built_from(sources).len() && #[trigger] built_from(sources)[k].0 == sources[i].0;
    let c = CatalogView { languages: built_from(sources), current: english() };
    assert(c.languages[k].0 == english());
}

proof fn lemma_built_distinct(sources: Seq<(Seq<char>, Seq<char>)>)
    ensures
        distinct_codes(built_from(sources)),
    decreases sources.len(),
{
    if sources.len() > 0 {
        let prev = sources.drop_last();
        lemma_built_distinct(prev);
        let (code, src) = sources.last();
        let p = built_from(prev);
        let n = built_from(sources);
        if exists|j: int| 0 <= j < p.len() && #[trigger] p[j].0 == code {
            let j = choose|j: int| 0 <= j < p.len() && #[trigger] p[j].0 == code;
            assert forall|a: int, b: int|
                0 <= a < n.len() && 0 <= b < n.len() && a != b implies #[trigger] n[a].0
                != #[trigger] n[b].0 by {
                assert(n[a].0 == p[a].0);
                assert(n[b].0 == p[b].0);
            }
        } else {
            assert forall|a: int, b: int|
                0 <= a < n.len() && 0 <= b < n.len() && a != b implies #[trigger] n[a].0
                != #[trigger] n[b].0 by {
                if a < p.len() {
                    assert(n[a] == p[a]);
                }
                if b < p.len() {
                    assert(n[b] == p[b]);
                }
            }
        }
    }
}

} // verus!

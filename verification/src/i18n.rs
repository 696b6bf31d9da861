//! Translatable texts: message tables with a fallback chain, and templates with `{}` placeholders.

use vstd::prelude::*;
use crate::textmap::TextMap;
use crate::text::{ascii_lower_of, chars_of, push_range, push_text, str_eq, string_of, texts, trim, trim_of};

verus! {

/// An argument of a translatable text: plain text, or another translatable text.
#[derive(Debug)]
pub enum Param {
    Text(String),
    Component(TranslationComponent),
}

/// A message key with its arguments.
#[derive(Debug)]
pub struct TranslationComponent {
    pub key: String,
    pub params: Vec<Param>,
}

impl TranslationComponent {
    /// A message without arguments.
    pub fn new(key: &str) -> (c: Self)
        ensures
            c.key@ == key@,
            c.params@.len() == 0,
    {
        TranslationComponent { key: key.to_string(), params: Vec::new() }
    }

    /// A message with arguments.
    pub fn with_params(key: &str, params: Vec<Param>) -> (c: Self)
        ensures
            c.key@ == key@,
            c.params == params,
    {
        TranslationComponent { key: key.to_string(), params }
    }

    /// The text of the message in a locale.
    pub fn render(&self, translator: &Translator, locale: &str) -> (out: String)
        ensures
            out@ == rendered(translator@, *self, locale_key(locale@)),
    {
        translator.render(self, locale)
    }
}

impl From<String> for Param {
    fn from(value: String) -> (p: Param) {
        Param::Text(value)
    }
}

impl vstd::std_specs::convert::FromSpecImpl<String> for Param {
    open spec fn obeys_from_spec() -> bool {
        true
    }

    open spec fn from_spec(value: String) -> Param {
        Param::Text(value)
    }
}

impl From<TranslationComponent> for Param {
    fn from(value: TranslationComponent) -> (p: Param) {
        Param::Component(value)
    }
}

impl vstd::std_specs::convert::FromSpecImpl<TranslationComponent> for Param {
    open spec fn obeys_from_spec() -> bool {
        true
    }

    open spec fn from_spec(value: TranslationComponent) -> Param {
        Param::Component(value)
    }
}

// --------------------------------------------------------------------- locales
/// The text in lower case, as Unicode maps it.
pub uninterp spec fn lowercase(s: Seq<char>) -> Seq<char>;

/// `str::to_lowercase`: the text in lower case. The result depends on the text alone, and of ASCII
/// text it is the text with its capital letters in lower case.
#[verifier::external_body]
pub(crate) fn to_lowercase(s: &str) -> (out: String)
    ensures
        out@ == lowercase(s@),
        vstd::utf8::is_ascii_chars(s@) ==> out@ == ascii_lower_of(s@),
{
    s.to_lowercase()
}

/// The text with each hyphen turned into an underscore.
pub open spec fn underscored(s: Seq<char>) -> Seq<char> {
    Seq::new(
        s.len(),
        |i: int|
            if s[i] == '-' {
                '_'
            } else {
                s[i]
            },
    )
}

/// The key of a locale: trimmed, in lower case, with underscores for hyphens.
pub open spec fn locale_key(locale: Seq<char>) -> Seq<char> {
    underscored(lowercase(trim_of(locale)))
}

/// Turns each hyphen into an underscore.
pub fn underscore(s: &str) -> (out: String)
    ensures
        out@ == underscored(s@),
{
    let chars = chars_of(s);
    let mut out: Vec<char> = Vec::new();
    let mut i: usize = 0;
    while i < chars.len()
        invariant
            i <= chars.len(),
            out@ == underscored(chars@).take(i as int),
        decreases chars.len() - i,
    {
        out.push(
            if chars[i] == '-' {
                '_'
            } else {
                chars[i]
            },
        );
        i += 1;
        assert(out@ =~= underscored(chars@).take(i as int));
    }
    assert(underscored(chars@).take(i as int) =~= underscored(chars@));
    string_of(out.as_slice())
}

/// The key of a locale: trimmed, in lower case, with underscores for hyphens.
pub fn normalize_locale(locale: &str) -> (key: String)
    ensures
        key@ == locale_key(locale@),
        vstd::utf8::is_ascii_chars(trim_of(locale@)) ==> key@ == underscored(
            ascii_lower_of(trim_of(locale@)),
        ),
{
    let t = trim(locale);
    let lower = to_lowercase(t.as_str());
    underscore(lower.as_str())
}

// ------------------------------------------------------------------- templates
/// The template from position `i` on with its placeholders `{}` filled, the next argument being the
/// `k`-th; a placeholder without an argument stays.
pub open spec fn filled_from(raw: Seq<char>, i: int, args: Seq<Seq<char>>, k: int) -> Seq<char>
    decreases raw.len() - i,
{
    if i < 0 || i >= raw.len() {
        Seq::empty()
    } else if raw[i] == '{' && i + 1 < raw.len() && raw[i + 1] == '}' {
        (if 0 <= k < args.len() {
            args[k]
        } else {
            "{}"@
        }) + filled_from(raw, i + 2, args, k + 1)
    } else {
        seq![raw[i]] + filled_from(raw, i + 1, args, k)
    }
}

/// The template with its placeholders filled in order.
pub open spec fn filled(raw: Seq<char>, args: Seq<Seq<char>>) -> Seq<char> {
    filled_from(raw, 0, args, 0)
}

/// Fills the placeholders `{}` of a template in order; a placeholder without an argument stays, and
/// arguments without a placeholder are left out.
pub fn fill_args(raw: &str, args: &[String]) -> (out: String)
    ensures
        out@ == filled(raw@, texts(args@)),
{
    let chars = chars_of(raw);
    let mut out: Vec<char> = Vec::new();
    let mut i: usize = 0;
    let mut k: usize = 0;
    assert(out@ + filled(raw@, texts(args@)) =~= filled(raw@, texts(args@)));
    while i < chars.len()
        invariant
            i <= chars.len(),
            k <= args.len(),
            chars@ == raw@,
            exists|n: int|
                {
                    &&& k <= n
                    &&& k < args.len() ==> n == k
                    &&& filled(raw@, texts(args@)) == out@ + #[trigger] filled_from(
                        raw@,
                        i as int,
                        texts(args@),
                        n,
                    )
                },
        decreases chars.len() - i,
    {
        let ghost n = choose|n: int|
            {
                &&& k <= n
                &&& k < args.len() ==> n == k
                &&& filled(raw@, texts(args@)) == out@ + #[trigger] filled_from(
                    raw@,
                    i as int,
                    texts(args@),
                    n,
                )
            };
        let ghost before = out@;
        if chars[i] == '{' && i + 1 < chars.len() && chars[i + 1] == '}' {
            let ghost rest = filled_from(raw@, i + 2, texts(args@), n + 1);
            if k < args.len() {
                push_text(&mut out, args[k].as_str());
                assert(out@ + rest =~= before + (texts(args@)[n] + rest));
                k += 1;
            } else {
                push_text(&mut out, "{}");
                assert(out@ + rest =~= before + ("{}"@ + rest));
            }
            i += 2;
        } else {
            let ghost rest = filled_from(raw@, i + 1, texts(args@), n);
            out.push(chars[i]);
            assert(out@ + rest =~= before + (seq![raw@[i as int]] + rest));
            i += 1;
        }
    }
    assert(filled(raw@, texts(args@)) =~= out@);
    string_of(out.as_slice())
}

/// Whether the text has no placeholder.
pub open spec fn no_placeholder(s: Seq<char>) -> bool {
    forall|i: int| 0 <= i && i + 1 < s.len() ==> !(#[trigger] s[i] == '{' && s[i + 1] == '}')
}

proof fn lemma_no_placeholder(raw: Seq<char>, i: int, args: Seq<Seq<char>>, k: int)
    requires
        no_placeholder(raw),
        0 <= i <= raw.len(),
    ensures
        filled_from(raw, i, args, k) == raw.skip(i),
    decreases raw.len() - i,
{
    if i < raw.len() {
        lemma_no_placeholder(raw, i + 1, args, k);
        assert(seq![raw[i]] + raw.skip(i + 1) =~= raw.skip(i));
    } else {
        assert(raw.skip(i) =~= Seq::empty());
    }
}

/// A template without placeholders stays as it is, whatever the arguments.
pub proof fn template_without_placeholders_is_unchanged(raw: Seq<char>, args: Seq<Seq<char>>)
    requires
        no_placeholder(raw),
    ensures
        filled(raw, args) == raw,
{
    lemma_no_placeholder(raw, 0, args, 0);
    assert(raw.skip(0) =~= raw);
}

proof fn lemma_no_args(raw: Seq<char>, i: int, k: int)
    requires
        0 <= i <= raw.len(),
        0 <= k,
    ensures
        filled_from(raw, i, Seq::empty(), k) == raw.skip(i),
    decreases raw.len() - i,
{
    reveal_strlit("{}");
    if i < raw.len() {
        if raw[i] == '{' && i + 1 < raw.len() && raw[i + 1] == '}' {
            lemma_no_args(raw, i + 2, k + 1);
            assert("{}"@ + raw.skip(i + 2) =~= raw.skip(i));
        } else {
            lemma_no_args(raw, i + 1, k);
            assert(seq![raw[i]] + raw.skip(i + 1) =~= raw.skip(i));
        }
    } else {
        assert(raw.skip(i) =~= Seq::empty());
    }
}

/// Without arguments every template stays as it is: placeholders without an argument are kept.
pub proof fn template_without_arguments_is_unchanged(raw: Seq<char>)
    ensures
        filled(raw, Seq::empty()) == raw,
{
    lemma_no_args(raw, 0, 0);
    assert(raw.skip(0) =~= raw);
}

// ---------------------------------------------------------------------- tables
/// A message table as a value: from keys to templates.
pub type Messages = Map<Seq<char>, Seq<char>>;

/// Message tables as a value, by locale.
pub type Tables = Map<Seq<char>, Messages>;

/// Message tables by locale.
#[derive(Debug)]
pub struct Translator {
    tables: TextMap<TextMap<String>>,
}

/// The messages of a table.
pub open spec fn messages_of(table: TextMap<String>) -> Messages {
    table@.map_values(|s: String| s@)
}

/// The template for a key in one table, if the locale has a table.
pub open spec fn template_in(tables: Tables, locale: Seq<char>, key: Seq<char>) -> Option<
    Seq<char>,
> {
    if tables.contains_key(locale) && tables[locale].contains_key(key) {
        Some(tables[locale][key])
    } else {
        None
    }
}

/// The template for a key: that of the locale, else that of `en_us`, else that of
/// `messages_fallback`.
pub open spec fn template_of(tables: Tables, key: Seq<char>, locale: Seq<char>) -> Option<
    Seq<char>,
> {
    match template_in(tables, locale, key) {
        Some(t) => Some(t),
        None => match template_in(tables, "en_us"@, key) {
            Some(t) => Some(t),
            None => template_in(tables, "messages_fallback"@, key),
        },
    }
}

/// The text of a message: its template, or its key where no table has one, with the arguments
/// filled in; an empty key gives an empty text.
pub open spec fn rendered(tables: Tables, c: TranslationComponent, locale: Seq<char>) -> Seq<char>
    decreases c,
{
    if c.key@.len() == 0 {
        Seq::empty()
    } else {
        filled(
            match template_of(tables, c.key@, locale) {
                Some(t) => t,
                None => c.key@,
            },
            rendered_args(tables, c.params, c.params@.len(), locale),
        )
    }
}

/// The texts of the first `n` arguments.
pub open spec fn rendered_args(
    tables: Tables,
    params: Vec<Param>,
    n: nat,
    locale: Seq<char>,
) -> Seq<Seq<char>>
    decreases params, n,
{
    if n == 0 || n > params@.len() {
        Seq::empty()
    } else {
        rendered_args(tables, params, (n - 1) as nat, locale).push(
            match params@[n - 1] {
                Param::Text(s) => s@,
                Param::Component(c) => rendered(tables, c, locale),
            },
        )
    }
}

/// The messages with the given entries entered in turn; later entries win.
pub open spec fn extended(messages: Messages, entries: Seq<(Seq<char>, Seq<char>)>) -> Messages
    decreases entries.len(),
{
    if entries.len() == 0 {
        messages
    } else {
        extended(messages, entries.drop_last()).insert(entries.last().0, entries.last().1)
    }
}

/// Entries by the views of their texts.
pub open spec fn entry_views(entries: Seq<(String, String)>) -> Seq<(Seq<char>, Seq<char>)> {
    Seq::new(entries.len(), |i: int| (entries[i].0@, entries[i].1@))
}

/// The messages of a message file.
pub open spec fn file_messages(text: Seq<char>) -> Seq<(Seq<char>, Seq<char>)> {
    match yaml_mapping(text) {
        Some(items) => messages_from(items),
        None => Seq::empty(),
    }
}

/// Tables with the messages of a message file.
pub open spec fn with_file(tables: Tables, locale: Seq<char>, text: Seq<char>) -> Tables {
    tables.insert(
        locale,
        extended(
            if tables.contains_key(locale) {
                tables[locale]
            } else {
                Map::empty()
            },
            file_messages(text),
        ),
    )
}

/// Tables with the messages of message files, in turn.
pub open spec fn with_files(tables: Tables, files: Seq<(Seq<char>, Seq<char>)>) -> Tables
    decreases files.len(),
{
    if files.len() == 0 {
        tables
    } else {
        with_file(with_files(tables, files.drop_last()), files.last().0, files.last().1)
    }
}

/// Tables with the messages of message files, in turn, whose locales are taken in lower case.
pub open spec fn overridden(tables: Tables, files: Seq<(Seq<char>, Seq<char>)>) -> Tables
    decreases files.len(),
{
    if files.len() == 0 {
        tables
    } else {
        with_file(overridden(tables, files.drop_last()), lowercase(files.last().0), files.last().1)
    }
}

impl Default for Translator {
    fn default() -> (v: Self)
        ensures
            v@ == Map::<Seq<char>, Messages>::empty(),
    {
        Translator::new()
    }
}

impl Translator {
    /// The tables as a value.
    pub closed spec fn view(&self) -> Tables {
        self.tables@.map_values(|t: TextMap<String>| messages_of(t))
    }

    /// A translator without tables.
    pub fn new() -> (t: Translator)
        ensures
            t@ == Map::<Seq<char>, Messages>::empty(),
    {
        let t = Translator { tables: TextMap::new() };
        assert(t@ =~= Map::empty());
        t
    }

    /// Enters messages into the table of a locale key, which is made if it is not there; an entry
    /// replaces an older one of its key.
    pub fn extend(&mut self, locale: &str, entries: Vec<(String, String)>)
        ensures
            final(self)@ == old(self)@.insert(
                locale@,
                extended(
                    if old(self)@.contains_key(locale@) {
                        old(self)@[locale@]
                    } else {
                        Map::empty()
                    },
                    entry_views(entries@),
                ),
            ),
    {
        let ghost before = self.tables@;
        let mut table = match self.tables.remove(locale) {
            Some(table) => table,
            None => TextMap::new(),
        };
        let ghost start = messages_of(table);
        assert(start =~= if old(self)@.contains_key(locale@) {
            old(self)@[locale@]
        } else {
            Map::empty()
        });
        let mut i: usize = 0;
        assert(entry_views(entries@).take(0) =~= Seq::empty());
        while i < entries.len()
            invariant
                i <= entries.len(),
                messages_of(table) == extended(start, entry_views(entries@).take(i as int)),
            decreases entries.len() - i,
        {
            let ghost next = entry_views(entries@).take(i + 1);
            let ghost table_before = table@;
            assert(next.drop_last() =~= entry_views(entries@).take(i as int));
            let key = entries[i].0.clone();
            let text = entries[i].1.clone();
            let _ = table.insert(key, text);
            proof {
                assert(table@.map_values(|s: String| s@) =~= table_before.map_values(
                    |s: String| s@,
                ).insert(key@, text@));
            }
            i += 1;
        }
        assert(entry_views(entries@).take(i as int) =~= entry_views(entries@));
        let _ = self.tables.insert(locale.to_string(), table);
        proof {
            let f = |t: TextMap<String>| messages_of(t);
            assert(self@ =~= before.map_values(f).insert(locale@, messages_of(table)));
        }
    }

    /// Enters the messages of a message file into the table of a locale key.
    pub fn add_file(&mut self, locale: &str, text: &str)
        ensures
            final(self)@ == with_file(old(self)@, locale@, text@),
    {
        let entries = parse_messages(text);
        self.extend(locale, entries);
    }

    /// A translator with the messages of message files, each with its locale key.
    pub fn embedded(files: &Vec<(String, String)>) -> (t: Translator)
        ensures
            t@ == with_files(Map::empty(), entry_views(files@)),
    {
        let mut t = Translator::new();
        let ghost all = entry_views(files@);
        let mut i: usize = 0;
        assert(all.take(0) =~= Seq::empty());
        while i < files.len()
            invariant
                i <= files.len(),
                all == entry_views(files@),
                t@ == with_files(Map::empty(), all.take(i as int)),
            decreases files.len() - i,
        {
            assert(all.take(i + 1).drop_last() =~= all.take(i as int));
            t.add_file(files[i].0.as_str(), files[i].1.as_str());
            i += 1;
        }
        assert(all.take(i as int) =~= all);
        t
    }

    /// A translator with the messages of message files, over which those of other files are laid.
    /// The names of their locales may be in any case.
    pub fn with_overrides(files: &Vec<(String, String)>, overrides: &Vec<(String, String)>) -> (t:
        Translator)
        ensures
            t@ == overridden(
                with_files(Map::empty(), entry_views(files@)),
                entry_views(overrides@),
            ),
    {
        let mut t = Translator::embedded(files);
        let ghost start = t@;
        let ghost all = entry_views(overrides@);
        let mut i: usize = 0;
        assert(all.take(0) =~= Seq::empty());
        while i < overrides.len()
            invariant
                i <= overrides.len(),
                all == entry_views(overrides@),
                t@ == overridden(start, all.take(i as int)),
            decreases overrides.len() - i,
        {
            assert(all.take(i + 1).drop_last() =~= all.take(i as int));
            let locale = to_lowercase(overrides[i].0.as_str());
            t.add_file(locale.as_str(), overrides[i].1.as_str());
            i += 1;
        }
        assert(all.take(i as int) =~= all);
        t
    }

    fn lookup(&self, locale: &str, key: &str) -> (r: Option<&String>)
        ensures
            match r {
                Some(text) => template_in(self@, locale@, key@) == Some(text@),
                None => template_in(self@, locale@, key@) is None,
            },
    {
        match self.tables.get(locale) {
            Some(table) => table.get(key),
            None => None,
        }
    }

    /// The template for a key: that of the locale, else that of `en_us`, else that of
    /// `messages_fallback`.
    pub fn template(&self, key: &str, locale: &str) -> (r: Option<&String>)
        ensures
            match r {
                Some(text) => template_of(self@, key@, locale_key(locale@)) == Some(text@),
                None => template_of(self@, key@, locale_key(locale@)) is None,
            },
    {
        let locale = normalize_locale(locale);
        self.template_for(key, locale.as_str())
    }

    fn template_for(&self, key: &str, locale: &str) -> (r: Option<&String>)
        ensures
            match r {
                Some(text) => template_of(self@, key@, locale@) == Some(text@),
                None => template_of(self@, key@, locale@) is None,
            },
    {
        if let Some(text) = self.lookup(locale, key) {
            return Some(text);
        }
        if let Some(text) = self.lookup("en_us", key) {
            return Some(text);
        }
        self.lookup("messages_fallback", key)
    }

    /// The text of a message in a locale.
    pub fn render(&self, component: &TranslationComponent, locale: &str) -> (out: String)
        ensures
            out@ == rendered(self@, *component, locale_key(locale@)),
    {
        let key = normalize_locale(locale);
        self.render_in(component, key.as_str())
    }

    fn render_in(&self, component: &TranslationComponent, locale: &str) -> (out: String)
        ensures
            out@ == rendered(self@, *component, locale@),
        decreases component,
    {
        if component.key.as_str().is_empty() {
            return String::new();
        }
        let mut args: Vec<String> = Vec::new();
        let mut i: usize = 0;
        assert(texts(args@) =~= Seq::empty());
        while i < component.params.len()
            invariant
                i <= component.params@.len(),
                texts(args@) == rendered_args(self@, component.params, i as nat, locale@),
            decreases component.params@.len() - i,
        {
            let ghost before = args@;
            assert(decreases_to!(component => component.params));
            assert(decreases_to!(component.params => component.params@[i as int]));
            let text = match &component.params[i] {
                Param::Text(s) => s.clone(),
                Param::Component(c) => self.render_in(c, locale),
            };
            args.push(text);
            i += 1;
            assert(texts(args@) =~= texts(before).push(text@));
        }
        match self.template_for(component.key.as_str(), locale) {
            Some(template) => fill_args(template.as_str(), args.as_slice()),
            None => fill_args(component.key.as_str(), args.as_slice()),
        }
    }
}

/// Where no table has a template, the key stands for it: a message without arguments is rendered
/// as its key.
pub proof fn unknown_key_renders_as_itself(
    tables: Tables,
    c: TranslationComponent,
    locale: Seq<char>,
)
    requires
        template_of(tables, c.key@, locale) is None,
        c.params@.len() == 0,
    ensures
        rendered(tables, c, locale) == c.key@,
{
    if c.key@.len() > 0 {
        assert(rendered_args(tables, c.params, 0, locale) =~= Seq::empty());
        template_without_arguments_is_unchanged(c.key@);
    } else {
        assert(c.key@ =~= Seq::empty());
    }
}

/// An entered message is found again under its key, in its locale first of all.
pub proof fn extended_message_is_found(
    tables: Tables,
    locale: Seq<char>,
    messages: Messages,
    entries: Seq<(Seq<char>, Seq<char>)>,
)
    requires
        entries.len() > 0,
    ensures
        template_of(
            tables.insert(locale, extended(messages, entries)),
            entries.last().0,
            locale,
        ) == Some(entries.last().1),
{
}

proof fn lemma_extended(messages: Messages, entries: Seq<(Seq<char>, Seq<char>)>, key: Seq<char>)
    ensures
        ({
            let own = extended(Map::empty(), entries);
            let all = extended(messages, entries);
            &&& own.contains_key(key) ==> all.contains_key(key) && all[key] == own[key]
            &&& !own.contains_key(key) ==> all.contains_key(key) == messages.contains_key(key) && (
            all.contains_key(key) ==> all[key] == messages[key])
        }),
    decreases entries.len(),
{
    if entries.len() > 0 {
        lemma_extended(messages, entries.drop_last(), key);
    }
}

/// A message of a file comes before those that were known for its locale; what the file does not
/// have stays as it was.
pub proof fn overriding_message_comes_first(
    tables: Tables,
    locale: Seq<char>,
    text: Seq<char>,
    key: Seq<char>,
)
    ensures
        ({
            let own = extended(Map::empty(), file_messages(text));
            let after = with_file(tables, locale, text);
            if own.contains_key(key) {
                template_of(after, key, locale) == Some(own[key])
            } else {
                template_of(after, key, locale) == template_of(tables, key, locale)
            }
        }),
{
    let known = if tables.contains_key(locale) {
        tables[locale]
    } else {
        Map::empty()
    };
    lemma_extended(known, file_messages(text), key);
    let after = with_file(tables, locale, text);
    assert forall|other: Seq<char>| #[trigger] template_in(after, other, key) == (if other == locale {
        template_in(after, locale, key)
    } else {
        template_in(tables, other, key)
    }) by {}
}

// ------------------------------------------------------------------ YAML tables
/// A value of a YAML document, as far as messages need it.
#[derive(Debug)]
pub enum Scalar<T> {
    Text(T),
    Number(T),
    Bool(bool),
    Other,
}

/// The text of a scalar; lists, maps and nothing have none.
pub open spec fn scalar_text(s: Scalar<Seq<char>>) -> Option<Seq<char>> {
    match s {
        Scalar::Text(t) => Some(t),
        Scalar::Number(t) => Some(t),
        Scalar::Bool(b) => Some(
            if b {
                "true"@
            } else {
                "false"@
            },
        ),
        Scalar::Other => None,
    }
}

/// A scalar by its view.
pub open spec fn scalar_view(s: Scalar<String>) -> Scalar<Seq<char>> {
    match s {
        Scalar::Text(t) => Scalar::Text(t@),
        Scalar::Number(t) => Scalar::Number(t@),
        Scalar::Bool(b) => Scalar::Bool(b),
        Scalar::Other => Scalar::Other,
    }
}

fn value_to_string(s: &Scalar<String>) -> (r: Option<String>)
    ensures
        match r {
            Some(t) => scalar_text(scalar_view(*s)) == Some(t@),
            None => scalar_text(scalar_view(*s)) is None,
        },
{
    match s {
        Scalar::Text(t) => Some(t.clone()),
        Scalar::Number(t) => Some(t.clone()),
        Scalar::Bool(b) => Some(
            if *b {
                "true".to_string()
            } else {
                "false".to_string()
            },
        ),
        Scalar::Other => None,
    }
}

/// The keys, where they are texts, and the values of a YAML document that is a mapping.
pub uninterp spec fn yaml_mapping(raw: Seq<char>) -> Option<
    Seq<(Option<Seq<char>>, Scalar<Seq<char>>)>,
>;

/// Items of a mapping by their views.
pub open spec fn item_views(items: Seq<(Option<String>, Scalar<String>)>) -> Seq<
    (Option<Seq<char>>, Scalar<Seq<char>>),
> {
    Seq::new(items.len(), |i: int| (crate::text::opt_view(items[i].0), scalar_view(items[i].1)))
}

/// Reads a YAML document with `serde_yaml::from_str` and, if it is a mapping, gives its items in
/// the order of `serde_yaml::Mapping::iter`. The result depends on the text alone.
#[verifier::external_body]
fn read_yaml_mapping(raw: &str) -> (r: Option<Vec<(Option<String>, Scalar<String>)>>)
    ensures
        match r {
            Some(items) => yaml_mapping(raw@) == Some(item_views(items@)),
            None => yaml_mapping(raw@) is None,
        },
{
    let value = serde_yaml::from_str::<serde_yaml::Value>(raw).ok()?;
    let convert = |(k, v): (&serde_yaml::Value, &serde_yaml::Value)| {
        let scalar = match v {
            serde_yaml::Value::String(s) => Scalar::Text(s.clone()),
            serde_yaml::Value::Number(n) => Scalar::Number(n.to_string()),
            serde_yaml::Value::Bool(b) => Scalar::Bool(*b),
            _ => Scalar::Other,
        };
        (k.as_str().map(|s| s.to_string()), scalar)
    };
    Some(value.as_mapping()?.iter().map(convert).collect())
}

/// The messages of the items whose key is a text and whose value is a scalar.
pub open spec fn messages_from(items: Seq<(Option<Seq<char>>, Scalar<Seq<char>>)>) -> Seq<
    (Seq<char>, Seq<char>),
>
    decreases items.len(),
{
    if items.len() == 0 {
        Seq::empty()
    } else {
        let rest = messages_from(items.drop_last());
        match (items.last().0, scalar_text(items.last().1)) {
            (Some(key), Some(text)) => rest.push((key, text)),
            _ => rest,
        }
    }
}

/// The messages among the items of a mapping: those whose key is a text and whose value is a
/// scalar.
pub fn collect_messages(items: &[(Option<String>, Scalar<String>)]) -> (out: Vec<(String, String)>)
    ensures
        entry_views(out@) == messages_from(item_views(items@)),
{
    let mut out: Vec<(String, String)> = Vec::new();
    let mut i: usize = 0;
    assert(item_views(items@).take(0) =~= Seq::empty());
    assert(entry_views(out@) =~= Seq::empty());
    while i < items.len()
        invariant
            i <= items.len(),
            entry_views(out@) == messages_from(item_views(items@).take(i as int)),
        decreases items.len() - i,
    {
        let ghost before = out@;
        let ghost next = item_views(items@).take(i + 1);
        assert(next.drop_last() =~= item_views(items@).take(i as int));
        if let Some(key) = &items[i].0 {
            if let Some(text) = value_to_string(&items[i].1) {
                out.push((key.clone(), text));
                assert(entry_views(out@) =~= entry_views(before).push((key@, text@)));
            }
        }
        i += 1;
    }
    assert(item_views(items@).take(i as int) =~= item_views(items@));
    out
}

/// Reads a message file: a YAML mapping from keys to scalars. What is no such mapping has no
/// messages.
pub fn parse_messages(raw: &str) -> (out: Vec<(String, String)>)
    ensures
        entry_views(out@) == file_messages(raw@),
{
    match read_yaml_mapping(raw) {
        Some(items) => collect_messages(items.as_slice()),
        None => {
            let out: Vec<(String, String)> = Vec::new();
            assert(entry_views(out@) =~= Seq::empty());
            out
        },
    }
}

// ------------------------------------------------------------------ laws of messages
proof fn lemma_filled_moved(
    a: Seq<char>,
    i: int,
    x: Seq<Seq<char>>,
    k: int,
    b: Seq<char>,
    j: int,
    y: Seq<Seq<char>>,
    l: int,
)
    requires
        0 <= i <= a.len(),
        0 <= j <= b.len(),
        a.skip(i) == b.skip(j),
        0 <= k,
        0 <= l,
        (k < x.len()) == (l < y.len()),
        k < x.len() ==> x.skip(k) == y.skip(l),
    ensures
        filled_from(a, i, x, k) == filled_from(b, j, y, l),
    decreases a.len() - i,
{
    assert(a.skip(i).len() == a.len() - i && b.skip(j).len() == b.len() - j);
    if i < a.len() {
        assert(a.skip(i)[0] == a[i] && b.skip(j)[0] == b[j]);
        assert(a.skip(i + 1) =~= a.skip(i).skip(1));
        assert(b.skip(j + 1) =~= b.skip(j).skip(1));
        if i + 1 < a.len() {
            assert(a.skip(i)[1] == a[i + 1] && b.skip(j)[1] == b[j + 1]);
        }
        if a[i] == '{' && i + 1 < a.len() && a[i + 1] == '}' {
            assert(a.skip(i + 2) =~= a.skip(i).skip(2));
            assert(b.skip(j + 2) =~= b.skip(j).skip(2));
            if k < x.len() {
                assert(x.skip(k).len() == x.len() - k && y.skip(l).len() == y.len() - l);
                assert(x.skip(k)[0] == x[k] && y.skip(l)[0] == y[l]);
                assert(x.skip(k + 1) =~= x.skip(k).skip(1));
                assert(y.skip(l + 1) =~= y.skip(l).skip(1));
            }
            lemma_filled_moved(a, i + 2, x, k + 1, b, j + 2, y, l + 1);
        } else {
            lemma_filled_moved(a, i + 1, x, k, b, j + 1, y, l);
        }
    }
}

proof fn lemma_filled_prefix(a: Seq<char>, rest: Seq<char>, i: int, args: Seq<Seq<char>>)
    requires
        0 <= i <= a.len(),
        forall|j: int| 0 <= j < a.len() ==> #[trigger] a[j] != '{',
    ensures
        filled_from(a + rest, i, args, 0) == a.skip(i) + filled_from(
            a + rest,
            a.len() as int,
            args,
            0,
        ),
    decreases a.len() - i,
{
    if i < a.len() {
        lemma_filled_prefix(a, rest, i + 1, args);
        assert((a + rest)[i] == a[i]);
        assert(a.skip(i) =~= seq![a[i]] + a.skip(i + 1));
    } else {
        assert(a.skip(i) =~= Seq::empty());
    }
}

/// The first placeholder of a template gives way to the first argument, and the rest of the template
/// is filled with the rest of the arguments; a placeholder without an argument stays.
pub proof fn placeholders_take_the_arguments_in_order(
    a: Seq<char>,
    b: Seq<char>,
    args: Seq<Seq<char>>,
)
    requires
        forall|j: int| 0 <= j < a.len() ==> #[trigger] a[j] != '{',
    ensures
        args.len() > 0 ==> filled(a + "{}"@ + b, args) == a + args[0] + filled(b, args.skip(1)),
        args.len() == 0 ==> filled(a + "{}"@ + b, args) == a + "{}"@ + b,
{
    reveal_strlit("{}");
    let raw = a + "{}"@ + b;
    let n = a.len() as int;
    assert(raw =~= a + ("{}"@ + b));
    lemma_filled_prefix(a, "{}"@ + b, 0, args);
    assert(a.skip(0) =~= a);
    assert(raw[n] == '{' && raw[n + 1] == '}');
    if args.len() > 0 {
        assert(raw.skip(n + 2) =~= b.skip(0));
        assert(args.skip(1).skip(0) =~= args.skip(1));
        assert((1 < args.len()) == (0 < args.skip(1).len()));
        lemma_filled_moved(raw, n + 2, args, 1, b, 0, args.skip(1), 0);
        assert(filled(raw, args) =~= a + (args[0] + filled(b, args.skip(1))));
        assert(a + (args[0] + filled(b, args.skip(1))) =~= a + args[0] + filled(b, args.skip(1)));
    } else {
        assert(args =~= Seq::empty());
        template_without_arguments_is_unchanged(raw);
    }
}

/// A message is looked for in its own locale, and only where that lacks it in English, and only
/// where that lacks it too among the fallback messages.
pub proof fn templates_fall_back_in_order(tables: Tables, key: Seq<char>, locale: Seq<char>)
    ensures
        tables.contains_key(locale) && tables[locale].contains_key(key) ==> template_of(
            tables,
            key,
            locale,
        ) == Some(tables[locale][key]),
        !(tables.contains_key(locale) && tables[locale].contains_key(key)) ==> {
            let en = tables.contains_key("en_us"@) && tables["en_us"@].contains_key(key);
            let last = tables.contains_key("messages_fallback"@)
                && tables["messages_fallback"@].contains_key(key);
            &&& en ==> template_of(tables, key, locale) == Some(tables["en_us"@][key])
            &&& !en && last ==> template_of(tables, key, locale) == Some(
                tables["messages_fallback"@][key],
            )
            &&& !en && !last ==> template_of(tables, key, locale) is None
        },
{
}

proof fn lemma_rendered_arg(tables: Tables, params: Vec<Param>, n: nat, locale: Seq<char>, i: int)
    requires
        0 <= i < n <= params@.len(),
    ensures
        rendered_args(tables, params, n, locale).len() == n,
        rendered_args(tables, params, n, locale)[i] == match params@[i] {
            Param::Text(s) => s@,
            Param::Component(c) => rendered(tables, c, locale),
        },
    decreases n,
{
    if n > 1 {
        lemma_rendered_arg(
            tables,
            params,
            (n - 1) as nat,
            locale,
            if i < n - 1 {
                i
            } else {
                0
            },
        );
    } else {
        assert(rendered_args(tables, params, 0, locale) =~= Seq::empty());
    }
}

/// A message with one argument in one place is its template with the argument there: a text as it
/// is, a message as it reads in the same locale. Where there is no template the key is one.
pub proof fn rendering_fills_the_template(
    tables: Tables,
    c: TranslationComponent,
    locale: Seq<char>,
    a: Seq<char>,
    b: Seq<char>,
)
    requires
        c.key@.len() > 0,
        c.params@.len() == 1,
        forall|j: int| 0 <= j < a.len() ==> #[trigger] a[j] != '{',
        forall|j: int| 0 <= j < b.len() ==> #[trigger] b[j] != '{',
        match template_of(tables, c.key@, locale) {
            Some(t) => t == a + "{}"@ + b,
            None => c.key@ == a + "{}"@ + b,
        },
    ensures
        c.params@[0] matches Param::Text(s) ==> rendered(tables, c, locale) == a + s@ + b,
        c.params@[0] matches Param::Component(d) ==> rendered(tables, c, locale) == a + rendered(
            tables,
            d,
            locale,
        ) + b,
{
    lemma_rendered_arg(tables, c.params, 1, locale, 0);
    let args = rendered_args(tables, c.params, 1, locale);
    placeholders_take_the_arguments_in_order(a, b, args);
    template_without_placeholders_is_unchanged(b, args.skip(1));
}

/// What two mappings give one after the other is what they give together; of an item the text is
/// the message, of a number its spelling and of a truth value its word, and nothing else is one.
pub proof fn mappings_are_read_item_by_item(
    a: Seq<(Option<Seq<char>>, Scalar<Seq<char>>)>,
    b: Seq<(Option<Seq<char>>, Scalar<Seq<char>>)>,
    key: Seq<char>,
    t: Seq<char>,
    other: Scalar<Seq<char>>,
)
    ensures
        messages_from(a + b) == messages_from(a) + messages_from(b),
        messages_from(seq![(Some(key), Scalar::Text(t))]) == seq![(key, t)],
        messages_from(seq![(Some(key), Scalar::Number(t))]) == seq![(key, t)],
        messages_from(seq![(Some(key), Scalar::Bool(true))]) == seq![(key, "true"@)],
        messages_from(seq![(Some(key), Scalar::Bool(false))]) == seq![(key, "false"@)],
        messages_from(seq![(Some(key), Scalar::Other)]) == Seq::<(Seq<char>, Seq<char>)>::empty(),
        messages_from(seq![(None, other)]) == Seq::<(Seq<char>, Seq<char>)>::empty(),
    decreases b.len(),
{
    lemma_one_message((Some(key), Scalar::Text(t)));
    lemma_one_message((Some(key), Scalar::Number(t)));
    lemma_one_message((Some(key), Scalar::Bool(true)));
    lemma_one_message((Some(key), Scalar::Bool(false)));
    lemma_one_message((Some(key), Scalar::Other));
    lemma_one_message((None, other));
    if b.len() == 0 {
        assert(a + b =~= a);
    } else {
        mappings_are_read_item_by_item(a, b.drop_last(), key, t, other);
        assert((a + b).drop_last() =~= a + b.drop_last());
        assert((a + b).last() == b.last());
    }
}

proof fn lemma_one_message(item: (Option<Seq<char>>, Scalar<Seq<char>>))
    ensures
        messages_from(seq![item]) == match (item.0, scalar_text(item.1)) {
            (Some(key), Some(text)) => seq![(key, text)],
            _ => Seq::empty(),
        },
{
    let one = seq![item];
    assert(one.drop_last() =~= Seq::<(Option<Seq<char>>, Scalar<Seq<char>>)>::empty());
    assert(one.last() == item);
    assert(messages_from(one.drop_last()) =~= Seq::empty());
}

/// The key of a locale has underscores where the lower case of the name has dashes, and is else that
/// lower case; white space around the name does not count.
pub proof fn locale_keys_have_underscores(pre: Seq<char>, name: Seq<char>, post: Seq<char>, i: int)
    requires
        crate::text::blank(pre),
        crate::text::blank(post),
        name.len() > 0,
        !crate::text::is_ws(name[0]),
        !crate::text::is_ws(name.last()),
        0 <= i < lowercase(name).len(),
    ensures
        locale_key(pre + name + post).len() == lowercase(name).len(),
        lowercase(name)[i] == '-' ==> locale_key(pre + name + post)[i] == '_',
        lowercase(name)[i] != '-' ==> locale_key(pre + name + post)[i] == lowercase(name)[i],
{
    crate::text::trimming_takes_the_white_space_around(pre, name, post);
}

/// Files are read in their order, each over what was known of its locale; those that override name
/// their locale in any case.
pub proof fn files_are_read_in_order(
    tables: Tables,
    files: Seq<(Seq<char>, Seq<char>)>,
    locale: Seq<char>,
    text: Seq<char>,
)
    ensures
        with_files(tables, files.push((locale, text))) == with_file(
            with_files(tables, files),
            locale,
            text,
        ),
        overridden(tables, files.push((locale, text))) == with_file(
            overridden(tables, files),
            lowercase(locale),
            text,
        ),
        with_files(tables, Seq::empty()) == tables,
        overridden(tables, Seq::empty()) == tables,
{
    assert(files.push((locale, text)).drop_last() =~= files);
}

/// A file changes no locale but its own.
pub proof fn files_change_their_own_locale(
    tables: Tables,
    locale: Seq<char>,
    text: Seq<char>,
    other: Seq<char>,
)
    requires
        other != locale,
    ensures
        with_file(tables, locale, text).contains_key(locale),
        with_file(tables, locale, text).contains_key(other) == tables.contains_key(other),
        tables.contains_key(other) ==> with_file(tables, locale, text)[other] == tables[other],
        yaml_mapping(text) is None && tables.contains_key(locale) ==> with_file(
            tables,
            locale,
            text,
        )[locale] == tables[locale],
{
}

} // verus!

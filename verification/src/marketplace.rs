//! The template marketplace: reusable pieces of code to publish and browse.
//!
//! Templates are kept by id and listed in the order of their ids. A template
//! carries a rating, which is a number with a fraction. This module carries
//! the rating as the 32 bits that its owner made of it and never works with
//! it; comparing and averaging ratings is left to the caller.

use crate::keyed;
use crate::keyed::{as_map, key_at, place_of, sorted_keys, Keyed};
use crate::text::{
    contains, decimal, decimal_string, has_substring, lemma_text_lt_irreflexive,
    lemma_text_lt_transitive, str_eq, text_less, text_lt, texts,
};
use vstd::prelude::*;
use vstd::string::*;

verus! {

/// A template of the marketplace.
#[derive(Debug, PartialEq, Eq)]
pub struct Template {
    pub id: String,
    pub name: String,
    pub description: String,
    pub category: String,
    pub language: String,
    pub code: String,
    pub author: String,
    /// How often the template was taken.
    pub downloads: u32,
    /// The rating, as the bits of a 32-bit floating-point number.
    pub rating_bits: u32,
    pub created_at: u64,
    pub updated_at: u64,
}

/// A template as plain mathematical values.
pub struct TemplateModel {
    pub id: Seq<char>,
    pub name: Seq<char>,
    pub description: Seq<char>,
    pub category: Seq<char>,
    pub language: Seq<char>,
    pub code: Seq<char>,
    pub author: Seq<char>,
    pub downloads: u32,
    pub rating_bits: u32,
    pub created_at: u64,
    pub updated_at: u64,
}

impl View for Template {
    type V = TemplateModel;

    open spec fn view(&self) -> TemplateModel {
        TemplateModel {
            id: self.id@,
            name: self.name@,
            description: self.description@,
            category: self.category@,
            language: self.language@,
            code: self.code@,
            author: self.author@,
            downloads: self.downloads,
            rating_bits: self.rating_bits,
            created_at: self.created_at,
            updated_at: self.updated_at,
        }
    }
}

impl Clone for Template {
    fn clone(&self) -> (copy: Template)
        ensures
            copy@ == self@,
    {
        Template {
            id: self.id.clone(),
            name: self.name.clone(),
            description: self.description.clone(),
            category: self.category.clone(),
            language: self.language.clone(),
            code: self.code.clone(),
            author: self.author.clone(),
            downloads: self.downloads,
            rating_bits: self.rating_bits,
            created_at: self.created_at,
            updated_at: self.updated_at,
        }
    }
}

/// What a search can ask of a template besides its text. A filter that is
/// not given lets every template pass.
#[derive(Clone, Debug, PartialEq, Eq)]
pub struct SearchFilters {
    pub category: Option<String>,
    pub language: Option<String>,
    pub author: Option<String>,
}

/// Search filters as plain mathematical values.
pub struct FiltersModel {
    pub category: Option<Seq<char>>,
    pub language: Option<Seq<char>>,
    pub author: Option<Seq<char>>,
}

/// The text inside an optional string.
pub open spec fn optional_text(s: Option<String>) -> Option<Seq<char>> {
    match s {
        Some(text) => Some(text@),
        None => None,
    }
}

impl View for SearchFilters {
    type V = FiltersModel;

    open spec fn view(&self) -> FiltersModel {
        FiltersModel {
            category: optional_text(self.category),
            language: optional_text(self.language),
            author: optional_text(self.author),
        }
    }
}

/// The filters of a search, where it has any.
pub open spec fn filters_of(filters: Option<SearchFilters>) -> Option<FiltersModel> {
    match filters {
        Some(f) => Some(f@),
        None => None,
    }
}

/// The model of a template store: templates by id.
pub type MarketModel = Map<Seq<char>, TemplateModel>;

/// The templates that a vector holds, as plain values.
pub open spec fn models(v: Seq<Template>) -> Seq<TemplateModel> {
    Seq::new(v.len(), |i: int| v[i]@)
}

/// Whether the template at `i` of `l` has the id `id`.
pub open spec fn listed_at(l: Seq<TemplateModel>, id: Seq<char>, i: int) -> bool {
    0 <= i < l.len() && l[i].id == id
}

/// Whether `l` lists the templates of `m`: each template of `m` once, under
/// its own id, the ids going up in the order of texts.
pub open spec fn is_listing(l: Seq<TemplateModel>, m: MarketModel) -> bool {
    &&& forall|i: int| 0 <= i < l.len() ==> m.contains_key((#[trigger] l[i]).id) && m[l[i].id] == l[i]
    &&& forall|i: int, j: int| 0 <= i < j < l.len() ==> text_lt(l[i].id, l[j].id)
    &&& forall|id: Seq<char>| #[trigger] m.contains_key(id) ==> exists|i: int| listed_at(l, id, i)
}

/// A store has one listing only.
pub proof fn lemma_listing_is_unique(a: Seq<TemplateModel>, b: Seq<TemplateModel>, m: MarketModel)
    requires
        is_listing(a, m),
        is_listing(b, m),
    ensures
        a == b,
{
    lemma_listing_prefix(a, b, m, a.len() as int);
    lemma_listing_prefix(b, a, m, b.len() as int);
    assert(a =~= b);
}

proof fn lemma_listing_prefix(a: Seq<TemplateModel>, b: Seq<TemplateModel>, m: MarketModel, n: int)
    requires
        is_listing(a, m),
        is_listing(b, m),
        0 <= n <= a.len(),
    ensures
        n <= b.len(),
        forall|i: int| 0 <= i < n ==> a[i] == b[i],
    decreases n,
{
    if n > 0 {
        lemma_listing_prefix(a, b, m, n - 1);
        let k = n - 1;
        let id = a[k].id;
        assert(m.contains_key(id));
        let j = choose|j: int| listed_at(b, id, j);
        if j < k {
            assert(a[j] == b[j]);
            lemma_text_lt_irreflexive(id);
        }
        if j > k {
            let other = b[k].id;
            assert(m.contains_key(other));
            let back = choose|i: int| listed_at(a, other, i);
            if back < k {
                assert(a[back] == b[back]);
                lemma_text_lt_irreflexive(other);
            } else if back == k {
                lemma_text_lt_irreflexive(id);
            } else {
                lemma_text_lt_transitive(other, id, other);
                lemma_text_lt_irreflexive(other);
            }
        }
        assert(j == k);
        assert(b[k] == m[id]);
    }
}

spec fn keyed_templates(s: Seq<Template>) -> Seq<Keyed<TemplateModel>> {
    Seq::new(s.len(), |i: int| (s[i].id@, s[i]@))
}

/// The place of `id` among the entries: behind all smaller ids.
fn locate(entries: &Vec<Template>, id: &str) -> (at: usize)
    ensures
        at <= entries.len(),
        forall|k: int| 0 <= k < at ==> text_lt(#[trigger] keyed_templates(entries@)[k].0, id@),
        at < entries.len() ==> !text_lt(keyed_templates(entries@)[at as int].0, id@),
{
    let mut at: usize = 0;
    while at < entries.len()
        invariant
            at <= entries.len(),
            forall|k: int| 0 <= k < at ==> text_lt(#[trigger] keyed_templates(entries@)[k].0, id@),
        decreases entries.len() - at,
    {
        if !text_less(entries[at].id.as_str(), id) {
            return at;
        }
        at += 1;
    }
    at
}

/// The place of the entry with the id `id`, if there is one.
fn find_template(entries: &Vec<Template>, id: &str) -> (found: Result<usize, usize>)
    requires
        sorted_keys(keyed_templates(entries@)),
    ensures
        match found {
            Ok(at) => key_at(keyed_templates(entries@), id@, at as int),
            Err(at) => place_of(keyed_templates(entries@), id@, at as int),
        },
{
    let at = locate(entries, id);
    if at < entries.len() && str_eq(entries[at].id.as_str(), id) {
        return Ok(at);
    }
    proof {
        if at < entries.len() {
            keyed::lemma_sorted_tail(keyed_templates(entries@), at as int, id@);
        }
    }
    Err(at)
}

/// The templates of the marketplace, in the order of their ids.
pub struct TemplateStore {
    entries: Vec<Template>,
}

impl View for TemplateStore {
    type V = MarketModel;

    closed spec fn view(&self) -> MarketModel {
        as_map(keyed_templates(self.entries@))
    }
}

impl TemplateStore {
    /// The ids stand in the order of texts, so no id occurs twice.
    #[verifier::type_invariant]
    pub closed spec fn wf(&self) -> bool {
        sorted_keys(keyed_templates(self.entries@))
    }

    /// The templates in the order of their ids.
    pub closed spec fn listing(&self) -> Seq<TemplateModel> {
        models(self.entries@)
    }

    /// The listing of a well-formed store is the listing of its map.
    pub proof fn lemma_listing(self)
        requires
            self.wf(),
        ensures
            is_listing(self.listing(), self@),
            self@.dom().finite(),
            self.listing().len() == self@.len(),
            forall|id: Seq<char>| #[trigger] self@.contains_key(id) ==> self@[id].id == id,
    {
        let s = keyed_templates(self.entries@);
        let l = self.listing();
        keyed::lemma_sorted_is_distinct(s);
        keyed::lemma_len(s);
        assert forall|i: int| 0 <= i < l.len() implies self@.contains_key((#[trigger] l[i]).id)
            && self@[l[i].id] == l[i] by {
            keyed::lemma_lookup(s, i);
        }
        assert forall|i: int, j: int| 0 <= i < j < l.len() implies text_lt(l[i].id, l[j].id) by {
            assert(text_lt(s[i].0, s[j].0));
        }
        assert forall|id: Seq<char>| #[trigger] self@.contains_key(id) implies self@[id].id == id
            && exists|i: int| listed_at(l, id, i) by {
            let i = keyed::lemma_index_of(s, id);
            assert(listed_at(l, id, i));
        }
    }

    /// An empty store.
    pub fn new() -> (store: TemplateStore)
        ensures
            store.wf(),
            store@ == Map::<Seq<char>, TemplateModel>::empty(),
            store.listing() == Seq::<TemplateModel>::empty(),
    {
        let store = TemplateStore { entries: Vec::new() };
        assert(store@ =~= Map::<Seq<char>, TemplateModel>::empty());
        assert(store.listing() =~= Seq::<TemplateModel>::empty());
        store
    }

    /// Number of templates.
    pub fn len(&self) -> (n: usize)
        ensures
            n == self@.len(),
            n == self.listing().len(),
    {
        proof {
            use_type_invariant(self);
            keyed::lemma_sorted_is_distinct(keyed_templates(self.entries@));
            keyed::lemma_len(keyed_templates(self.entries@));
        }
        self.entries.len()
    }

    /// The template with the id `id`, if there is one.
    pub fn get(&self, id: &str) -> (found: Option<&Template>)
        ensures
            match found {
                Some(template) => self@.contains_key(id@) && self@[id@] == template@
                    && template.id@ == id@,
                None => !self@.contains_key(id@),
            },
    {
        proof {
            use_type_invariant(self);
            keyed::lemma_sorted_is_distinct(keyed_templates(self.entries@));
        }
        match find_template(&self.entries, id) {
            Ok(at) => {
                proof {
                    keyed::lemma_lookup(keyed_templates(self.entries@), at as int);
                }
                Some(&self.entries[at])
            },
            Err(at) => {
                proof {
                    keyed::lemma_place_is_free(keyed_templates(self.entries@), id@, at as int);
                }
                None
            },
        }
    }

    /// Files `template` under its id, in place of any template with that id.
    pub fn put(&mut self, template: Template)
        ensures
            final(self).wf(),
            final(self)@ == old(self)@.insert(template.id@, template@),
    {
        proof {
            use_type_invariant(&*self);
        }
        let mut entries: Vec<Template> = Vec::new();
        core::mem::swap(&mut self.entries, &mut entries);
        let ghost before = keyed_templates(entries@);
        let ghost entry = (template.id@, template@);
        proof {
            keyed::lemma_sorted_is_distinct(before);
        }
        match find_template(&entries, template.id.as_str()) {
            Ok(at) => {
                proof {
                    keyed::lemma_update(before, at as int, template@);
                    assert(keyed_templates(entries@.update(at as int, template)) =~= before.update(
                        at as int,
                        entry,
                    ));
                    let after = before.update(at as int, entry);
                    assert forall|i: int, j: int| 0 <= i < j < after.len() implies text_lt(
                        after[i].0,
                        after[j].0,
                    ) by {
                        assert(after[i].0 == before[i].0);
                        assert(after[j].0 == before[j].0);
                    }
                }
                entries.set(at, template);
            },
            Err(at) => {
                proof {
                    keyed::lemma_place_is_free(before, entry.0, at as int);
                    keyed::lemma_sorted_insert(before, at as int, entry);
                    keyed::lemma_insert(before, at as int, entry);
                    assert(keyed_templates(entries@.insert(at as int, template)) =~= before.insert(
                        at as int,
                        entry,
                    ));
                }
                entries.insert(at, template);
            },
        }
        self.entries = entries;
    }

    /// All templates, in the order of their ids.
    pub fn list(&self) -> (all: Vec<Template>)
        ensures
            models(all@) == self.listing(),
    {
        let mut all: Vec<Template> = Vec::new();
        let mut i: usize = 0;
        while i < self.entries.len()
            invariant
                i <= self.entries.len(),
                all.len() == i,
                forall|k: int| 0 <= k < i ==> #[trigger] all[k]@ == self.entries[k]@,
            decreases self.entries.len() - i,
        {
            all.push(self.entries[i].clone());
            i += 1;
        }
        assert(models(all@) =~= self.listing());
        all
    }

    /// The templates that a search selects, in the order of their ids.
    pub fn select(&self, query: &str, filters: &Option<SearchFilters>) -> (found: Vec<Template>)
        ensures
            models(found@) == self.listing().filter(selector(query@, filters_of(*filters))),
    {
        let lower_query = to_lower(query);
        let ghost l = self.listing();
        let ghost sel = selector(query@, filters_of(*filters));
        let mut found: Vec<Template> = Vec::new();
        let mut i: usize = 0;
        assert(l.take(0) =~= Seq::<TemplateModel>::empty());
        assert(models(found@) =~= l.take(0).filter(sel)) by {
            reveal(Seq::filter);
        }
        while i < self.entries.len()
            invariant
                i <= self.entries.len(),
                l == self.listing(),
                sel == selector(query@, filters_of(*filters)),
                lower_query@ == lowercase(query@),
                models(found@) == l.take(i as int).filter(sel),
            decreases self.entries.len() - i,
        {
            let ghost before = models(found@);
            proof {
                assert(l.take(i + 1) =~= l.take(i as int).push(l[i as int]));
                l.take(i as int).lemma_filter_push(l[i as int], sel);
            }
            let template = &self.entries[i];
            if matches_query(query, lower_query.as_str(), template) && matches_filters(
                filters,
                template,
            ) {
                found.push(template.clone());
                assert(models(found@) =~= before.push(l[i as int]));
            }
            i += 1;
        }
        assert(l.take(i as int) =~= l);
        found
    }

    /// The categories of the templates, each once.
    pub fn categories(&self) -> (all: Vec<String>)
        ensures
            texts(all@).no_duplicates(),
            forall|c: Seq<char>| texts(all@).contains(c) <==> has_category(self@, c),
    {
        proof {
            use_type_invariant(self);
            keyed::lemma_sorted_is_distinct(keyed_templates(self.entries@));
        }
        let mut values: Vec<String> = Vec::new();
        let mut i: usize = 0;
        while i < self.entries.len()
            invariant
                i <= self.entries.len(),
                values.len() == i,
                forall|k: int| 0 <= k < i ==> #[trigger] values@[k]@ == self.entries@[k].category@,
            decreases self.entries.len() - i,
        {
            values.push(self.entries[i].category.clone());
            i += 1;
        }
        let all = distinct_texts(&values);
        proof {
            let s = keyed_templates(self.entries@);
            assert forall|c: Seq<char>| texts(all@).contains(c) <==> has_category(self@, c) by {
                if texts(values@).contains(c) {
                    let k = choose|k: int| 0 <= k < values.len() && texts(values@)[k] == c;
                    keyed::lemma_lookup(s, k);
                    assert(self@.contains_key(s[k].0) && self@[s[k].0].category == c);
                }
                if has_category(self@, c) {
                    let id = choose|id: Seq<char>| #[trigger]
                        self@.contains_key(id) && self@[id].category == c;
                    let k = keyed::lemma_index_of(s, id);
                    assert(texts(values@)[k] == c);
                }
            }
        }
        all
    }

    /// The languages of the templates, each once.
    pub fn languages(&self) -> (all: Vec<String>)
        ensures
            texts(all@).no_duplicates(),
            forall|c: Seq<char>| texts(all@).contains(c) <==> has_language(self@, c),
    {
        proof {
            use_type_invariant(self);
            keyed::lemma_sorted_is_distinct(keyed_templates(self.entries@));
        }
        let mut values: Vec<String> = Vec::new();
        let mut i: usize = 0;
        while i < self.entries.len()
            invariant
                i <= self.entries.len(),
                values.len() == i,
                forall|k: int| 0 <= k < i ==> #[trigger] values@[k]@ == self.entries@[k].language@,
            decreases self.entries.len() - i,
        {
            values.push(self.entries[i].language.clone());
            i += 1;
        }
        let all = distinct_texts(&values);
        proof {
            let s = keyed_templates(self.entries@);
            assert forall|c: Seq<char>| texts(all@).contains(c) <==> has_language(self@, c) by {
                if texts(values@).contains(c) {
                    let k = choose|k: int| 0 <= k < values.len() && texts(values@)[k] == c;
                    keyed::lemma_lookup(s, k);
                    assert(self@.contains_key(s[k].0) && self@[s[k].0].language == c);
                }
                if has_language(self@, c) {
                    let id = choose|id: Seq<char>| #[trigger]
                        self@.contains_key(id) && self@[id].language == c;
                    let k = keyed::lemma_index_of(s, id);
                    assert(texts(values@)[k] == c);
                }
            }
        }
        all
    }

    /// How often templates were taken, all templates together. The count
    /// stops at the largest number that 32 bits hold.
    pub fn total_downloads(&self) -> (total: u32)
        ensures
            total == capped(downloads_sum(self.listing())),
    {
        let ghost l = self.listing();
        let mut total: u32 = 0;
        let mut i: usize = 0;
        assert(l.take(0) =~= Seq::<TemplateModel>::empty());
        while i < self.entries.len()
            invariant
                i <= self.entries.len(),
                l == self.listing(),
                total == capped(downloads_sum(l.take(i as int))),
            decreases self.entries.len() - i,
        {
            assert(l.take(i + 1).drop_last() =~= l.take(i as int));
            total = total.saturating_add(self.entries[i].downloads);
            i += 1;
        }
        assert(l.take(i as int) =~= l);
        total
    }
}

/// What `str::to_lowercase` makes of a text.
pub uninterp spec fn lowercase(s: Seq<char>) -> Seq<char>;

/// `str::to_lowercase`: the text in lower case, as Unicode defines it. The
/// result depends on the text alone.
#[verifier::external_body]
fn to_lower(s: &str) -> (lower: String)
    ensures
        lower@ == lowercase(s@),
{
    s.to_lowercase()
}

/// Whether the text of a search occurs in a template: in its name, its
/// description or its code, whatever the case of the letters. The empty
/// text occurs in every template.
pub open spec fn query_selects(query: Seq<char>, t: TemplateModel) -> bool {
    query.len() == 0 || has_substring(lowercase(t.name), lowercase(query)) || has_substring(
        lowercase(t.description),
        lowercase(query),
    ) || has_substring(lowercase(t.code), lowercase(query))
}

/// Whether a filter lets a value pass: it is not given, or it is the value.
pub open spec fn passes(filter: Option<Seq<char>>, value: Seq<char>) -> bool {
    match filter {
        Some(wanted) => value == wanted,
        None => true,
    }
}

/// Whether the filters of a search let a template pass.
pub open spec fn filters_select(filters: Option<FiltersModel>, t: TemplateModel) -> bool {
    match filters {
        Some(f) => passes(f.category, t.category) && passes(f.language, t.language) && passes(
            f.author,
            t.author,
        ),
        None => true,
    }
}

/// Whether a search selects a template.
pub open spec fn selects(query: Seq<char>, filters: Option<FiltersModel>, t: TemplateModel) -> bool {
    query_selects(query, t) && filters_select(filters, t)
}

/// The templates that a search selects.
pub open spec fn selector(query: Seq<char>, filters: Option<FiltersModel>) -> spec_fn(
    TemplateModel,
) -> bool {
    |t: TemplateModel| selects(query, filters, t)
}

fn matches_query(query: &str, lower_query: &str, template: &Template) -> (found: bool)
    requires
        lower_query@ == lowercase(query@),
    ensures
        found == query_selects(query@, template@),
{
    if query.is_empty() {
        return true;
    }
    if contains(to_lower(template.name.as_str()).as_str(), lower_query) {
        return true;
    }
    if contains(to_lower(template.description.as_str()).as_str(), lower_query) {
        return true;
    }
    contains(to_lower(template.code.as_str()).as_str(), lower_query)
}

fn passes_filter(filter: &Option<String>, value: &str) -> (pass: bool)
    ensures
        pass == passes(optional_text(*filter), value@),
{
    match filter {
        Some(wanted) => str_eq(value, wanted.as_str()),
        None => true,
    }
}

fn matches_filters(filters: &Option<SearchFilters>, template: &Template) -> (pass: bool)
    ensures
        pass == filters_select(filters_of(*filters), template@),
{
    match filters {
        Some(f) => passes_filter(&f.category, template.category.as_str()) && passes_filter(
            &f.language,
            template.language.as_str(),
        ) && passes_filter(&f.author, template.author.as_str()),
        None => true,
    }
}

fn has_text(all: &Vec<String>, text: &str) -> (found: bool)
    ensures
        found == texts(all@).contains(text@),
{
    let mut i: usize = 0;
    while i < all.len()
        invariant
            i <= all.len(),
            forall|k: int| 0 <= k < i ==> texts(all@)[k] != text@,
        decreases all.len() - i,
    {
        if str_eq(all[i].as_str(), text) {
            assert(texts(all@)[i as int] == text@);
            return true;
        }
        i += 1;
    }
    false
}

/// The texts of `values`, each once, in the order in which they first occur.
pub fn distinct_texts(values: &Vec<String>) -> (all: Vec<String>)
    ensures
        texts(all@).no_duplicates(),
        forall|c: Seq<char>| texts(all@).contains(c) <==> texts(values@).contains(c),
{
    let mut all: Vec<String> = Vec::new();
    let mut i: usize = 0;
    while i < values.len()
        invariant
            i <= values.len(),
            texts(all@).no_duplicates(),
            forall|c: Seq<char>|
                texts(all@).contains(c) <==> exists|k: int| 0 <= k < i && texts(values@)[k] == c,
        decreases values.len() - i,
    {
        let ghost before = texts(all@);
        let ghost value = values@[i as int]@;
        assert(texts(values@)[i as int] == value);
        if !has_text(&all, values[i].as_str()) {
            all.push(values[i].clone());
            assert(texts(all@) =~= before.push(value));
            assert forall|c: Seq<char>| texts(all@).contains(c) <==> exists|k: int|
                0 <= k < i + 1 && texts(values@)[k] == c by {
                if texts(all@).contains(c) {
                    let j = choose|j: int| 0 <= j < all.len() && texts(all@)[j] == c;
                    if j < before.len() {
                        assert(before[j] == c);
                        assert(before.contains(c));
                    }
                }
                if exists|k: int| 0 <= k < i + 1 && texts(values@)[k] == c {
                    let k = choose|k: int| 0 <= k < i + 1 && texts(values@)[k] == c;
                    if k < i {
                        assert(before.contains(c));
                        let j = choose|j: int| 0 <= j < before.len() && before[j] == c;
                        assert(texts(all@)[j] == c);
                    } else {
                        assert(texts(all@)[before.len() as int] == c);
                    }
                }
            }
        } else {
            assert forall|c: Seq<char>| texts(all@).contains(c) <==> exists|k: int|
                0 <= k < i + 1 && texts(values@)[k] == c by {
                if exists|k: int| 0 <= k < i + 1 && texts(values@)[k] == c {
                    let k = choose|k: int| 0 <= k < i + 1 && texts(values@)[k] == c;
                    if k == i {
                        assert(before.contains(value));
                    }
                }
            }
        }
        i += 1;
    }
    all
}

/// Whether some template of `m` is in the category `c`.
pub open spec fn has_category(m: MarketModel, c: Seq<char>) -> bool {
    exists|id: Seq<char>| #[trigger] m.contains_key(id) && m[id].category == c
}

/// Whether some template of `m` is written in the language `c`.
pub open spec fn has_language(m: MarketModel, c: Seq<char>) -> bool {
    exists|id: Seq<char>| #[trigger] m.contains_key(id) && m[id].language == c
}

/// The downloads of the templates of a listing, added up.
pub open spec fn downloads_sum(l: Seq<TemplateModel>) -> nat
    decreases l.len(),
{
    if l.len() == 0 {
        0
    } else {
        downloads_sum(l.drop_last()) + l.last().downloads as nat
    }
}

/// A count as 32 bits hold it: the count itself, or the largest number
/// that fits.
pub open spec fn capped(n: nat) -> u32 {
    if n > u32::MAX {
        u32::MAX
    } else {
        n as u32
    }
}

/// The id of a template created at `now`.
pub open spec fn template_id_at(now: u64) -> Seq<char> {
    "tpl_"@ + decimal(now as nat)
}

/// Publishes a template and hands back its id. The id is made of the host
/// time, so a template published at the same time as another takes its
/// place. A new template was never taken and has the rating whose bits are
/// all zero.
pub fn create_template(
    store: &mut TemplateStore,
    name: String,
    description: String,
    category: String,
    language: String,
    code: String,
    author: String,
    now: u64,
) -> (id: String)
    ensures
        id@ == template_id_at(now),
        final(store)@ == old(store)@.insert(
            template_id_at(now),
            TemplateModel {
                id: template_id_at(now),
                name: name@,
                description: description@,
                category: category@,
                language: language@,
                code: code@,
                author: author@,
                downloads: 0,
                rating_bits: 0,
                created_at: now,
                updated_at: now,
            },
        ),
{
    let mut id = String::from_str("tpl_");
    let digits = decimal_string(now);
    id.append(digits.as_str());
    let template = Template {
        id: id.clone(),
        name,
        description,
        category,
        language,
        code,
        author,
        downloads: 0,
        rating_bits: 0,
        created_at: now,
        updated_at: now,
    };
    store.put(template);
    id
}

/// All templates, in the order of their ids.
pub fn list_templates(store: &TemplateStore) -> (all: Vec<Template>)
    ensures
        models(all@) == store.listing(),
{
    store.list()
}

/// The template with the id `template_id`, if there is one.
pub fn get_template(store: &TemplateStore, template_id: &str) -> (found: Option<Template>)
    ensures
        match found {
            Some(template) => store@.contains_key(template_id@) && template@
                == store@[template_id@],
            None => !store@.contains_key(template_id@),
        },
{
    match store.get(template_id) {
        Some(template) => Some(template.clone()),
        None => None,
    }
}

/// The templates that hold the text `query` and pass the filters, in the
/// order of their ids.
pub fn search_templates(store: &TemplateStore, query: &str, filters: &Option<SearchFilters>) -> (found:
    Vec<Template>)
    ensures
        models(found@) == store.listing().filter(selector(query@, filters_of(*filters))),
{
    store.select(query, filters)
}

/// The categories of the templates, each once.
pub fn get_categories(store: &TemplateStore) -> (all: Vec<String>)
    ensures
        texts(all@).no_duplicates(),
        forall|c: Seq<char>| texts(all@).contains(c) <==> has_category(store@, c),
{
    store.categories()
}

/// The languages of the templates, each once.
pub fn get_languages(store: &TemplateStore) -> (all: Vec<String>)
    ensures
        texts(all@).no_duplicates(),
        forall|c: Seq<char>| texts(all@).contains(c) <==> has_language(store@, c),
{
    store.languages()
}

/// Notes a new rating of a template, and the time of the change. Says
/// whether there is such a template.
pub fn set_rating(store: &mut TemplateStore, template_id: &str, rating_bits: u32, now: u64) -> (done:
    bool)
    ensures
        done == old(store)@.contains_key(template_id@),
        final(store)@ == (if done {
            old(store)@.insert(
                template_id@,
                TemplateModel { rating_bits, updated_at: now, ..old(store)@[template_id@] },
            )
        } else {
            old(store)@
        }),
{
    let mut template = match store.get(template_id) {
        Some(template) => template.clone(),
        None => {
            return false;
        },
    };
    template.rating_bits = rating_bits;
    template.updated_at = now;
    store.put(template);
    true
}

/// The number of downloads after one more: one more, or the same where no
/// larger number fits.
pub open spec fn one_more(downloads: u32) -> u32 {
    if downloads == u32::MAX {
        downloads
    } else {
        (downloads + 1) as u32
    }
}

/// Counts one more download of a template, and notes the time. Says
/// whether there is such a template. The count never goes down.
pub fn download_template(store: &mut TemplateStore, template_id: &str, now: u64) -> (done: bool)
    ensures
        done == old(store)@.contains_key(template_id@),
        final(store)@ == (if done {
            old(store)@.insert(
                template_id@,
                TemplateModel {
                    downloads: one_more(old(store)@[template_id@].downloads),
                    updated_at: now,
                    ..old(store)@[template_id@]
                },
            )
        } else {
            old(store)@
        }),
{
    let mut template = match store.get(template_id) {
        Some(template) => template.clone(),
        None => {
            return false;
        },
    };
    template.downloads = template.downloads.saturating_add(1);
    template.updated_at = now;
    store.put(template);
    true
}

/// A text after a change that may or may not be asked for.
pub open spec fn changed(current: Seq<char>, change: Option<String>) -> Seq<char> {
    match change {
        Some(text) => text@,
        None => current,
    }
}

/// Changes the texts of a template that are given and leaves the others,
/// and notes the time. Says whether there is such a template.
pub fn update_template(
    store: &mut TemplateStore,
    template_id: &str,
    name: Option<String>,
    description: Option<String>,
    category: Option<String>,
    language: Option<String>,
    code: Option<String>,
    now: u64,
) -> (done: bool)
    ensures
        done == old(store)@.contains_key(template_id@),
        final(store)@ == (if done {
            old(store)@.insert(
                template_id@,
                TemplateModel {
                    name: changed(old(store)@[template_id@].name, name),
                    description: changed(old(store)@[template_id@].description, description),
                    category: changed(old(store)@[template_id@].category, category),
                    language: changed(old(store)@[template_id@].language, language),
                    code: changed(old(store)@[template_id@].code, code),
                    updated_at: now,
                    ..old(store)@[template_id@]
                },
            )
        } else {
            old(store)@
        }),
{
    let mut template = match store.get(template_id) {
        Some(template) => template.clone(),
        None => {
            return false;
        },
    };
    match name {
        Some(text) => {
            template.name = text;
        },
        None => {},
    }
    match description {
        Some(text) => {
            template.description = text;
        },
        None => {},
    }
    match category {
        Some(text) => {
            template.category = text;
        },
        None => {},
    }
    match language {
        Some(text) => {
            template.language = text;
        },
        None => {},
    }
    match code {
        Some(text) => {
            template.code = text;
        },
        None => {},
    }
    template.updated_at = now;
    store.put(template);
    true
}

/// The rating 4.5, as the bits of a 32-bit floating-point number.
pub const RATING_4_5: u32 = 0x4090_0000;

/// The rating 4.2, as the bits of a 32-bit floating-point number.
pub const RATING_4_2: u32 = 0x4086_6666;

/// The rating 4.8, as the bits of a 32-bit floating-point number.
pub const RATING_4_8: u32 = 0x4099_999A;

/// The code of the sample template that greets.
pub const HELLO_WORLD_CODE: &'static str = r#"use ic_cdk_macros::{query, update};

#[query]
fn greet(name: String) -> String {
    format!("Hello, {}!", name)
}

#[update]
fn set_greeting(message: String) {
    // Store greeting message
    ic_cdk::storage::stable_save((message,));
}

#[query]
fn get_greeting() -> String {
    ic_cdk::storage::stable_restore::<(String,)>().0
}"#;

/// The code of the sample template that counts.
pub const COUNTER_CODE: &'static str = r#"use ic_cdk_macros::{query, update};
use std::cell::RefCell;

thread_local! {
    static COUNTER: RefCell<u32> = RefCell::new(0);
}

#[query]
fn get_count() -> u32 {
    COUNTER.with(|c| *c.borrow())
}

#[update]
fn increment() -> u32 {
    COUNTER.with(|c| {
        let current = *c.borrow();
        *c.borrow_mut() = current + 1;
        current + 1
    })
}

#[update]
fn decrement() -> u32 {
    COUNTER.with(|c| {
        let current = *c.borrow();
        if current > 0 {
            *c.borrow_mut() = current - 1;
        }
        *c.borrow()
    })
}

#[update]
fn reset() {
    COUNTER.with(|c| *c.borrow_mut() = 0);
}"#;

/// The code of the sample template that mints tokens.
pub const NFT_BASIC_CODE: &'static str = r#"use ic_cdk_macros::{query, update};
use std::collections::BTreeMap;

#[derive(Clone, Debug, candid::CandidType, candid::Deserialize)]
pub struct Token {
    pub id: u32,
    pub owner: String,
    pub metadata: String,
}

thread_local! {
    static TOKENS: RefCell<BTreeMap<u32, Token>> = RefCell::new(BTreeMap::new());
    static NEXT_TOKEN_ID: RefCell<u32> = RefCell::new(1);
}

#[update]
fn mint_token(owner: String, metadata: String) -> u32 {
    let token_id = NEXT_TOKEN_ID.with(|id| {
        let current = *id.borrow();
        *id.borrow_mut() = current + 1;
        current
    });
    
    let token = Token {
        id: token_id,
        owner,
        metadata,
    };
    
    TOKENS.with(|t| {
        t.borrow_mut().insert(token_id, token);
    });
    
    token_id
}

#[query]
fn get_token(token_id: u32) -> Option<Token> {
    TOKENS.with(|t| t.borrow().get(&token_id).cloned())
}

#[query]
fn get_tokens_by_owner(owner: String) -> Vec<Token> {
    TOKENS.with(|t| {
        t.borrow()
            .values()
            .filter(|token| token.owner == owner)
            .cloned()
            .collect()
    })
}

#[update]
fn transfer_token(token_id: u32, new_owner: String) -> bool {
    TOKENS.with(|t| {
        let mut tokens = t.borrow_mut();
        if let Some(token) = tokens.get_mut(&token_id) {
            token.owner = new_owner;
            true
        } else {
            false
        }
    })
}"#;

/// A sample template: written in Rust by the team, as it is at `now`.
pub open spec fn sample(
    id: Seq<char>,
    name: Seq<char>,
    description: Seq<char>,
    category: Seq<char>,
    code: Seq<char>,
    downloads: u32,
    rating_bits: u32,
    now: u64,
) -> TemplateModel {
    TemplateModel {
        id,
        name,
        description,
        category,
        language: "Rust"@,
        code,
        author: "ICPad Team"@,
        downloads,
        rating_bits,
        created_at: now,
        updated_at: now,
    }
}

/// The sample template that greets.
pub open spec fn sample_hello_world(now: u64) -> TemplateModel {
    sample(
        "tpl_hello_world"@,
        "Hello World Canister"@,
        "A simple hello world canister in Rust for Internet Computer"@,
        "Smart Contract"@,
        HELLO_WORLD_CODE@,
        42,
        RATING_4_5,
        now,
    )
}

/// The sample template that counts.
pub open spec fn sample_counter(now: u64) -> TemplateModel {
    sample(
        "tpl_counter"@,
        "Counter Canister"@,
        "A simple counter canister with increment/decrement functionality"@,
        "Smart Contract"@,
        COUNTER_CODE@,
        28,
        RATING_4_2,
        now,
    )
}

/// The sample template that mints tokens.
pub open spec fn sample_nft_basic(now: u64) -> TemplateModel {
    sample(
        "tpl_nft_basic"@,
        "Basic NFT Canister"@,
        "A basic NFT implementation with minting and transfer functionality"@,
        "NFT"@,
        NFT_BASIC_CODE@,
        15,
        RATING_4_8,
        now,
    )
}

fn make_sample(
    id: &str,
    name: &str,
    description: &str,
    category: &str,
    code: &str,
    downloads: u32,
    rating_bits: u32,
    now: u64,
) -> (template: Template)
    ensures
        template@ == sample(
            id@,
            name@,
            description@,
            category@,
            code@,
            downloads,
            rating_bits,
            now,
        ),
{
    Template {
        id: String::from_str(id),
        name: String::from_str(name),
        description: String::from_str(description),
        category: String::from_str(category),
        language: String::from_str("Rust"),
        code: String::from_str(code),
        author: String::from_str("ICPad Team"),
        downloads,
        rating_bits,
        created_at: now,
        updated_at: now,
    }
}

/// Fills the marketplace with three templates to start from. Each takes
/// the place of a template with its id, and every other template stays.
pub fn initialize_sample_templates(store: &mut TemplateStore, now: u64) -> (done: bool)
    ensures
        done,
        final(store)@ == old(store)@.insert("tpl_hello_world"@, sample_hello_world(now)).insert(
            "tpl_counter"@,
            sample_counter(now),
        ).insert("tpl_nft_basic"@, sample_nft_basic(now)),
{
    store.put(
        make_sample(
            "tpl_hello_world",
            "Hello World Canister",
            "A simple hello world canister in Rust for Internet Computer",
            "Smart Contract",
            HELLO_WORLD_CODE,
            42,
            RATING_4_5,
            now,
        ),
    );
    store.put(
        make_sample(
            "tpl_counter",
            "Counter Canister",
            "A simple counter canister with increment/decrement functionality",
            "Smart Contract",
            COUNTER_CODE,
            28,
            RATING_4_2,
            now,
        ),
    );
    store.put(
        make_sample(
            "tpl_nft_basic",
            "Basic NFT Canister",
            "A basic NFT implementation with minting and transfer functionality",
            "NFT",
            NFT_BASIC_CODE,
            15,
            RATING_4_8,
            now,
        ),
    );
    true
}

} // verus!

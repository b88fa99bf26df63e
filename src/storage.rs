use vstd::prelude::*;

use crate::models::articles::Article;
use crate::models::characters::Character;
use crate::models::invitations::{Invitation, ResetPasswordRequest};
use crate::models::tags::{ContentTag, Tag};
use crate::models::users::{Session, User};

pub mod articles_storage;
pub mod characters_storage;
pub mod invitations_storage;
pub mod reset_requests_storage;
pub mod sessions_storage;
pub mod tags_storage;
pub mod users_storage;

verus! {

/// A row of a table: it has a primary key, and the key of the row it belongs
/// to (its owner or parent), which for rows without a parent is the key itself.
pub trait Row: Sized {
    spec fn spec_key(&self) -> u128;

    spec fn spec_group(&self) -> u128;

    fn key(&self) -> (r: u128)
        ensures
            r == self.spec_key(),
    ;

    fn group(&self) -> (r: u128)
        ensures
            r == self.spec_group(),
    ;

    fn copy_row(&self) -> (r: Self)
        ensures
            r == *self,
    ;
}

/// No two rows share a key.
pub open spec fn keys_unique<T: Row>(s: Seq<T>) -> bool {
    forall|i: int, j: int|
        0 <= i < s.len() && 0 <= j < s.len() && i != j ==> #[trigger] s[i].spec_key()
            != #[trigger] s[j].spec_key()
}

/// Some row has key `k`.
pub open spec fn has_key<T: Row>(s: Seq<T>, k: u128) -> bool {
    exists|i: int| 0 <= i < s.len() && (#[trigger] s[i]).spec_key() == k
}

/// Whether a row belongs to `g`.
pub open spec fn belongs_to<T: Row>(g: u128) -> spec_fn(T) -> bool {
    |x: T| x.spec_group() == g
}

/// Whether a row does not belong to `g`.
pub open spec fn not_belongs_to<T: Row>(g: u128) -> spec_fn(T) -> bool {
    |x: T| x.spec_group() != g
}

/// The rows that belong to `g`, in table order.
pub open spec fn in_group<T: Row>(s: Seq<T>, g: u128) -> Seq<T> {
    s.filter(belongs_to(g))
}

/// The rows that do not belong to `g`, in table order.
pub open spec fn outside_group<T: Row>(s: Seq<T>, g: u128) -> Seq<T> {
    s.filter(not_belongs_to(g))
}

/// Filtering keeps only rows of the table, so it keeps the keys unique.
pub proof fn lemma_filter_unique<T: Row>(s: Seq<T>, p: spec_fn(T) -> bool)
    requires
        keys_unique(s),
    ensures
        keys_unique(s.filter(p)),
        forall|x: T| #[trigger] s.filter(p).contains(x) ==> s.contains(x),
    decreases s.len(),
{
    reveal(Seq::filter);
    if s.len() > 0 {
        let d = s.drop_last();
        assert(keys_unique(d));
        lemma_filter_unique(d, p);
        let sub = d.filter(p);
        if p(s.last()) {
            assert forall|i: int| 0 <= i < sub.len() implies sub[i].spec_key()
                != s.last().spec_key() by {
                assert(sub.contains(sub[i]));
                let j = choose|j: int| 0 <= j < d.len() && d[j] == sub[i];
                assert(s[j] == d[j]);
            }
            assert forall|x: T| #[trigger] s.filter(p).contains(x) implies s.contains(x) by {
                let i = choose|i: int| 0 <= i < s.filter(p).len() && s.filter(p)[i] == x;
                if i < sub.len() {
                    assert(sub[i] == x);
                    assert(sub.contains(x));
                    let j = choose|j: int| 0 <= j < d.len() && d[j] == x;
                    assert(s[j] == x);
                } else {
                    assert(s[s.len() - 1] == x);
                }
            }
        } else {
            assert forall|x: T| #[trigger] s.filter(p).contains(x) implies s.contains(x) by {
                let j = choose|j: int| 0 <= j < d.len() && d[j] == x;
                assert(s[j] == x);
            }
        }
    }
}

/// A filter keeps every element only where the predicate holds of all of them.
pub proof fn lemma_filter_len<T>(s: Seq<T>, p: spec_fn(T) -> bool)
    ensures
        (forall|i: int| 0 <= i < s.len() ==> #[trigger] p(s[i])) ==> s.filter(p) == s,
        (exists|i: int| 0 <= i < s.len() && !#[trigger] p(s[i])) ==> s.filter(p).len() < s.len(),
        s.filter(p).len() <= s.len(),
    decreases s.len(),
{
    reveal(Seq::filter);
    if s.len() > 0 {
        let d = s.drop_last();
        lemma_filter_len(d, p);
        if forall|i: int| 0 <= i < s.len() ==> #[trigger] p(s[i]) {
            assert forall|i: int| 0 <= i < d.len() implies #[trigger] p(d[i]) by {
                assert(p(s[i]));
            }
            assert(d.push(s.last()) =~= s);
        }
        if exists|i: int| 0 <= i < s.len() && !#[trigger] p(s[i]) {
            let i = choose|i: int| 0 <= i < s.len() && !#[trigger] p(s[i]);
            if i < s.len() - 1 {
                assert(!p(d[i]));
            }
        }
    } else {
        assert(s.filter(p) =~= s);
    }
}

/// Extends a filter of a prefix by the next row.
pub proof fn lemma_filter_step<T>(s: Seq<T>, i: int, p: spec_fn(T) -> bool)
    requires
        0 <= i < s.len(),
    ensures
        s.subrange(0, i + 1).filter(p) == if p(s[i]) {
            s.subrange(0, i).filter(p).push(s[i])
        } else {
            s.subrange(0, i).filter(p)
        },
{
    reveal(Seq::filter);
    assert(s.subrange(0, i + 1).drop_last() =~= s.subrange(0, i));
}

/// The index of the row with key `k`.
pub fn find_key<T: Row>(v: &Vec<T>, k: u128) -> (r: Option<usize>)
    ensures
        match r {
            Some(i) => i < v@.len() && v@[i as int].spec_key() == k,
            None => !has_key(v@, k),
        },
{
    let mut i: usize = 0;
    while i < v.len()
        invariant
            i <= v@.len(),
            forall|j: int| 0 <= j < i ==> #[trigger] v@[j].spec_key() != k,
        decreases v@.len() - i,
    {
        if v[i].key() == k {
            return Some(i);
        }
        i = i + 1;
    }
    None
}

/// A row of a table with unique keys is the only one with its key.
pub proof fn lemma_unique_row<T: Row>(s: Seq<T>, x: T)
    requires
        keys_unique(s),
        s.contains(x),
    ensures
        has_key(s, x.spec_key()),
        forall|i: int| 0 <= i < s.len() && (#[trigger] s[i]).spec_key() == x.spec_key() ==> s[i] == x,
{
    let k = choose|k: int| 0 <= k < s.len() && s[k] == x;
    assert(s[k].spec_key() == x.spec_key());
    assert forall|i: int| 0 <= i < s.len() && (#[trigger] s[i]).spec_key() == x.spec_key() implies s[i] == x by {
        if i != k {
            assert(s[i].spec_key() != s[k].spec_key());
        }
    }
}

/// A copy of the row with key `k`; `NotFound` where there is none.
pub fn get_row<T: Row>(v: &Vec<T>, k: u128) -> (r: Result<T, crate::errors::ServiceError>)
    ensures
        match r {
            Ok(x) => v@.contains(x) && x.spec_key() == k,
            Err(e) => e == crate::errors::ServiceError::NotFound && !has_key(v@, k),
        },
{
    match find_key(v, k) {
        Some(i) => Ok(v[i].copy_row()),
        None => Err(crate::errors::ServiceError::NotFound),
    }
}

/// Copies of all rows, in table order.
pub fn copy_rows<T: Row>(v: &Vec<T>) -> (r: Vec<T>)
    ensures
        r@ == v@,
{
    let mut r: Vec<T> = Vec::new();
    let mut i: usize = 0;
    while i < v.len()
        invariant
            i <= v@.len(),
            r@ == v@.subrange(0, i as int),
        decreases v@.len() - i,
    {
        r.push(v[i].copy_row());
        i = i + 1;
        assert(r@ =~= v@.subrange(0, i as int));
    }
    assert(v@.subrange(0, v@.len() as int) =~= v@);
    r
}

/// Appends a row whose key is new.
pub fn push_row<T: Row>(v: &mut Vec<T>, x: T)
    requires
        keys_unique(old(v)@),
        !has_key(old(v)@, x.spec_key()),
    ensures
        final(v)@ == old(v)@.push(x),
        keys_unique(final(v)@),
{
    let ghost k = x.spec_key();
    v.push(x);
    assert forall|i: int, j: int|
        0 <= i < v@.len() && 0 <= j < v@.len() && i != j implies #[trigger] v@[i].spec_key()
        != #[trigger] v@[j].spec_key() by {
        if i == v@.len() - 1 {
            assert(old(v)@[j] == v@[j]);
        } else if j == v@.len() - 1 {
            assert(old(v)@[i] == v@[i]);
        } else {
            assert(old(v)@[i] == v@[i] && old(v)@[j] == v@[j]);
        }
    }
}

/// Removes the row at `i`.
pub fn remove_row<T: Row>(v: &mut Vec<T>, i: usize)
    requires
        i < old(v)@.len(),
        keys_unique(old(v)@),
    ensures
        final(v)@ == old(v)@.remove(i as int),
        keys_unique(final(v)@),
{
    v.remove(i);
    assert forall|a: int, b: int|
        0 <= a < v@.len() && 0 <= b < v@.len() && a != b implies #[trigger] v@[a].spec_key()
        != #[trigger] v@[b].spec_key() by {
        let oa = if a < i { a } else { a + 1 };
        let ob = if b < i { b } else { b + 1 };
        assert(v@[a] == old(v)@[oa] && v@[b] == old(v)@[ob]);
    }
}

/// Replaces the row at `i` by one with the same key.
pub fn set_row<T: Row>(v: &mut Vec<T>, i: usize, x: T)
    requires
        i < old(v)@.len(),
        keys_unique(old(v)@),
        x.spec_key() == old(v)@[i as int].spec_key(),
    ensures
        final(v)@ == old(v)@.update(i as int, x),
        keys_unique(final(v)@),
{
    v.set(i, x);
    assert forall|a: int, b: int|
        0 <= a < v@.len() && 0 <= b < v@.len() && a != b implies #[trigger] v@[a].spec_key()
        != #[trigger] v@[b].spec_key() by {
        assert(v@[a].spec_key() == old(v)@[a].spec_key());
        assert(v@[b].spec_key() == old(v)@[b].spec_key());
    }
}

/// Copies of the rows that belong to `g`, in table order.
pub fn rows_in_group<T: Row>(v: &Vec<T>, g: u128) -> (r: Vec<T>)
    ensures
        r@ == in_group(v@, g),
{
    let ghost p = belongs_to::<T>(g);
    let mut r: Vec<T> = Vec::new();
    let mut i: usize = 0;
    assert(v@.subrange(0, 0).filter(p) =~= Seq::<T>::empty()) by {
        reveal(Seq::filter);
    }
    while i < v.len()
        invariant
            i <= v@.len(),
            r@ == v@.subrange(0, i as int).filter(p),
            p == belongs_to::<T>(g),
        decreases v@.len() - i,
    {
        proof {
            lemma_filter_step(v@, i as int, p);
        }
        if v[i].group() == g {
            r.push(v[i].copy_row());
        }
        i = i + 1;
    }
    assert(v@.subrange(0, v@.len() as int) =~= v@);
    r
}

/// Removes the rows that belong to `g`, keeping the others in order; returns
/// how many were removed.
pub fn remove_group<T: Row>(v: &mut Vec<T>, g: u128) -> (n: usize)
    requires
        keys_unique(old(v)@),
    ensures
        final(v)@ == outside_group(old(v)@, g),
        keys_unique(final(v)@),
        n == old(v)@.len() - final(v)@.len(),
        n > 0 <==> exists|i: int| 0 <= i < old(v)@.len() && (#[trigger] old(v)@[i]).spec_group() == g,
{
    let ghost p = not_belongs_to::<T>(g);
    let mut kept: Vec<T> = Vec::new();
    let mut i: usize = 0;
    assert(v@.subrange(0, 0).filter(p) =~= Seq::<T>::empty()) by {
        reveal(Seq::filter);
    }
    while i < v.len()
        invariant
            i <= v@.len(),
            kept@ == v@.subrange(0, i as int).filter(p),
            kept@.len() <= i,
            p == not_belongs_to::<T>(g),
        decreases v@.len() - i,
    {
        proof {
            lemma_filter_step(v@, i as int, p);
        }
        if v[i].group() != g {
            kept.push(v[i].copy_row());
        }
        i = i + 1;
    }
    assert(v@.subrange(0, v@.len() as int) =~= v@);
    proof {
        lemma_filter_unique(v@, p);
        lemma_filter_len(v@, p);
        if exists|i: int| 0 <= i < v@.len() && (#[trigger] v@[i]).spec_group() == g {
            let i = choose|i: int| 0 <= i < v@.len() && (#[trigger] v@[i]).spec_group() == g;
            assert(!p(v@[i]));
        } else {
            assert forall|i: int| 0 <= i < v@.len() implies #[trigger] p(v@[i]) by {
                assert(v@[i].spec_group() != g);
            }
        }
    }
    let n = v.len() - kept.len();
    *v = kept;
    n
}

impl Row for User {
    open spec fn spec_key(&self) -> u128 {
        self.id
    }

    open spec fn spec_group(&self) -> u128 {
        self.id
    }

    fn key(&self) -> (r: u128) {
        self.id
    }

    fn group(&self) -> (r: u128) {
        self.id
    }

    fn copy_row(&self) -> (r: Self) {
        self.clone()
    }
}

impl Row for Session {
    open spec fn spec_key(&self) -> u128 {
        self.session_id
    }

    open spec fn spec_group(&self) -> u128 {
        self.user_id
    }

    fn key(&self) -> (r: u128) {
        self.session_id
    }

    fn group(&self) -> (r: u128) {
        self.user_id
    }

    fn copy_row(&self) -> (r: Self) {
        self.clone()
    }
}

impl Row for Invitation {
    open spec fn spec_key(&self) -> u128 {
        self.id
    }

    open spec fn spec_group(&self) -> u128 {
        self.id
    }

    fn key(&self) -> (r: u128) {
        self.id
    }

    fn group(&self) -> (r: u128) {
        self.id
    }

    fn copy_row(&self) -> (r: Self) {
        self.clone()
    }
}

impl Row for ResetPasswordRequest {
    open spec fn spec_key(&self) -> u128 {
        self.id
    }

    open spec fn spec_group(&self) -> u128 {
        self.id
    }

    fn key(&self) -> (r: u128) {
        self.id
    }

    fn group(&self) -> (r: u128) {
        self.id
    }

    fn copy_row(&self) -> (r: Self) {
        self.clone()
    }
}

impl Row for Character {
    open spec fn spec_key(&self) -> u128 {
        self.id
    }

    open spec fn spec_group(&self) -> u128 {
        self.user_id
    }

    fn key(&self) -> (r: u128) {
        self.id
    }

    fn group(&self) -> (r: u128) {
        self.user_id
    }

    fn copy_row(&self) -> (r: Self) {
        self.clone()
    }
}

impl Row for Article {
    open spec fn spec_key(&self) -> u128 {
        self.id
    }

    open spec fn spec_group(&self) -> u128 {
        self.character_id
    }

    fn key(&self) -> (r: u128) {
        self.id
    }

    fn group(&self) -> (r: u128) {
        self.character_id
    }

    fn copy_row(&self) -> (r: Self) {
        self.clone()
    }
}

impl Row for Tag {
    open spec fn spec_key(&self) -> u128 {
        self.id
    }

    open spec fn spec_group(&self) -> u128 {
        self.id
    }

    fn key(&self) -> (r: u128) {
        self.id
    }

    fn group(&self) -> (r: u128) {
        self.id
    }

    fn copy_row(&self) -> (r: Self) {
        self.clone()
    }
}

impl Row for ContentTag {
    open spec fn spec_key(&self) -> u128 {
        self.id
    }

    open spec fn spec_group(&self) -> u128 {
        self.content_id
    }

    fn key(&self) -> (r: u128) {
        self.id
    }

    fn group(&self) -> (r: u128) {
        self.content_id
    }

    fn copy_row(&self) -> (r: Self) {
        self.clone()
    }
}

/// The tables of the application.
pub struct Store {
    users: Vec<User>,
    sessions: Vec<Session>,
    invitations: Vec<Invitation>,
    reset_requests: Vec<ResetPasswordRequest>,
    characters: Vec<Character>,
    articles: Vec<Article>,
    tags: Vec<Tag>,
    content_tags: Vec<ContentTag>,
}

/// What a [`Store`] holds: the rows of each table, in insertion order.
pub struct StoreView {
    pub users: Seq<User>,
    pub sessions: Seq<Session>,
    pub invitations: Seq<Invitation>,
    pub reset_requests: Seq<ResetPasswordRequest>,
    pub characters: Seq<Character>,
    pub articles: Seq<Article>,
    pub tags: Seq<Tag>,
    pub content_tags: Seq<ContentTag>,
}

impl View for Store {
    type V = StoreView;

    closed spec fn view(&self) -> StoreView {
        StoreView {
            users: self.users@,
            sessions: self.sessions@,
            invitations: self.invitations@,
            reset_requests: self.reset_requests@,
            characters: self.characters@,
            articles: self.articles@,
            tags: self.tags@,
            content_tags: self.content_tags@,
        }
    }
}

/// Whether the character with id `id` exists and belongs to `owner`.
pub open spec fn character_owned_by(characters: Seq<Character>, id: u128, owner: u128) -> bool {
    exists|c: int| 0 <= c < characters.len() && (#[trigger] characters[c]).id == id && characters[c].user_id == owner
}

/// Every article belongs to an existing character and carries that
/// character's owner.
pub open spec fn articles_attached(articles: Seq<Article>, characters: Seq<Character>) -> bool {
    forall|a: int|
        0 <= a < articles.len() ==> character_owned_by(
            characters,
            (#[trigger] articles[a]).character_id,
            articles[a].user_id,
        )
}

/// Adding a character leaves every article attached.
pub proof fn lemma_attached_character_push(articles: Seq<Article>, characters: Seq<Character>, x: Character)
    requires
        articles_attached(articles, characters),
    ensures
        articles_attached(articles, characters.push(x)),
{
    let n = characters.push(x);
    assert forall|a: int| 0 <= a < articles.len() implies character_owned_by(
        n,
        (#[trigger] articles[a]).character_id,
        articles[a].user_id,
    ) by {
        let c = choose|c: int|
            0 <= c < characters.len() && (#[trigger] characters[c]).id == articles[a].character_id
                && characters[c].user_id == articles[a].user_id;
        assert(n[c] == characters[c]);
    }
}

/// Changing a character but for its id and owner leaves every article
/// attached.
pub proof fn lemma_attached_character_update(articles: Seq<Article>, characters: Seq<Character>, i: int, x: Character)
    requires
        articles_attached(articles, characters),
        0 <= i < characters.len(),
        x.id == characters[i].id,
        x.user_id == characters[i].user_id,
    ensures
        articles_attached(articles, characters.update(i, x)),
{
    let n = characters.update(i, x);
    assert forall|a: int| 0 <= a < articles.len() implies character_owned_by(
        n,
        (#[trigger] articles[a]).character_id,
        articles[a].user_id,
    ) by {
        let c = choose|c: int|
            0 <= c < characters.len() && (#[trigger] characters[c]).id == articles[a].character_id
                && characters[c].user_id == articles[a].user_id;
        assert(n[c].id == characters[c].id && n[c].user_id == characters[c].user_id);
    }
}

/// Removing a character together with its articles leaves every other
/// article attached.
pub proof fn lemma_attached_character_remove(articles: Seq<Article>, characters: Seq<Character>, i: int)
    requires
        articles_attached(articles, characters),
        keys_unique(articles),
        0 <= i < characters.len(),
    ensures
        articles_attached(outside_group(articles, characters[i].id), characters.remove(i)),
{
    let g = characters[i].id;
    let kept = outside_group(articles, g);
    let n = characters.remove(i);
    broadcast use vstd::seq_lib::group_filter_ensures;
    lemma_filter_unique(articles, not_belongs_to::<Article>(g));
    assert forall|a: int| 0 <= a < kept.len() implies character_owned_by(
        n,
        (#[trigger] kept[a]).character_id,
        kept[a].user_id,
    ) by {
        assert(not_belongs_to::<Article>(g)(kept[a]));
        assert(kept.contains(kept[a]));
        let k = choose|k: int| 0 <= k < articles.len() && articles[k] == kept[a];
        assert(character_owned_by(characters, articles[k].character_id, articles[k].user_id));
        let c = choose|c: int|
            0 <= c < characters.len() && (#[trigger] characters[c]).id == kept[a].character_id
                && characters[c].user_id == kept[a].user_id;
        if c < i {
            assert(n[c] == characters[c]);
        } else {
            assert(c != i);
            assert(n[c - 1] == characters[c]);
        }
    }
}

/// Adding an article of an existing character, with its owner, keeps the
/// articles attached.
pub proof fn lemma_attached_article_push(articles: Seq<Article>, characters: Seq<Character>, x: Article)
    requires
        articles_attached(articles, characters),
        character_owned_by(characters, x.character_id, x.user_id),
    ensures
        articles_attached(articles.push(x), characters),
{
    let n = articles.push(x);
    assert forall|a: int| 0 <= a < n.len() implies character_owned_by(
        characters,
        (#[trigger] n[a]).character_id,
        n[a].user_id,
    ) by {
        if a < articles.len() {
            assert(n[a] == articles[a]);
        }
    }
}

/// Changing an article but for its character and owner keeps the articles
/// attached.
pub proof fn lemma_attached_article_update(articles: Seq<Article>, characters: Seq<Character>, i: int, x: Article)
    requires
        articles_attached(articles, characters),
        0 <= i < articles.len(),
        x.character_id == articles[i].character_id,
        x.user_id == articles[i].user_id,
    ensures
        articles_attached(articles.update(i, x), characters),
{
    let n = articles.update(i, x);
    assert forall|a: int| 0 <= a < n.len() implies character_owned_by(
        characters,
        (#[trigger] n[a]).character_id,
        n[a].user_id,
    ) by {
        assert(character_owned_by(characters, articles[a].character_id, articles[a].user_id));
    }
}

/// Removing an article keeps the others attached.
pub proof fn lemma_attached_article_remove(articles: Seq<Article>, characters: Seq<Character>, i: int)
    requires
        articles_attached(articles, characters),
        0 <= i < articles.len(),
    ensures
        articles_attached(articles.remove(i), characters),
{
    let n = articles.remove(i);
    assert forall|a: int| 0 <= a < n.len() implies character_owned_by(
        characters,
        (#[trigger] n[a]).character_id,
        n[a].user_id,
    ) by {
        let o = if a < i { a } else { a + 1 };
        assert(n[a] == articles[o]);
    }
}

/// The articles of a character all carry the character's owner.
pub proof fn lemma_articles_of_character(articles: Seq<Article>, characters: Seq<Character>, i: int)
    requires
        articles_attached(articles, characters),
        keys_unique(articles),
        keys_unique(characters),
        0 <= i < characters.len(),
    ensures
        forall|k: int|
            0 <= k < in_group(articles, characters[i].id).len() ==> (#[trigger] in_group(
                articles,
                characters[i].id,
            )[k]).user_id == characters[i].user_id,
{
    let g = characters[i].id;
    let listed = in_group(articles, g);
    broadcast use vstd::seq_lib::group_filter_ensures;
    lemma_filter_unique(articles, belongs_to::<Article>(g));
    assert forall|k: int| 0 <= k < listed.len() implies (#[trigger] listed[k]).user_id == characters[i].user_id by {
        assert(belongs_to::<Article>(g)(listed[k]));
        assert(listed.contains(listed[k]));
        let j = choose|j: int| 0 <= j < articles.len() && articles[j] == listed[k];
        assert(character_owned_by(characters, articles[j].character_id, articles[j].user_id));
        let c = choose|c: int|
            0 <= c < characters.len() && (#[trigger] characters[c]).id == listed[k].character_id
                && characters[c].user_id == listed[k].user_id;
        if c != i {
            assert(characters[c].spec_key() != characters[i].spec_key());
        }
    }
}

/// No two users share an email, nor a username.
pub open spec fn users_distinct(users: Seq<User>) -> bool {
    forall|i: int, j: int|
        0 <= i < users.len() && 0 <= j < users.len() && i != j ==> {
            &&& (#[trigger] users[i]).email@ != (#[trigger] users[j]).email@
            &&& users[i].username@ != users[j].username@
        }
}

impl StoreView {
    /// Each table's key is unique, and so are the users' emails and
    /// usernames; every article belongs to an existing character and carries
    /// its owner.
    pub open spec fn wf(&self) -> bool {
        &&& keys_unique(self.users)
        &&& users_distinct(self.users)
        &&& keys_unique(self.sessions)
        &&& keys_unique(self.invitations)
        &&& keys_unique(self.reset_requests)
        &&& keys_unique(self.characters)
        &&& keys_unique(self.articles)
        &&& articles_attached(self.articles, self.characters)
        &&& keys_unique(self.tags)
        &&& keys_unique(self.content_tags)
    }
}

impl Store {
    /// A store with every table empty.
    pub fn new() -> (r: Store)
        ensures
            r@.users == Seq::<User>::empty(),
            r@.sessions == Seq::<Session>::empty(),
            r@.invitations == Seq::<Invitation>::empty(),
            r@.reset_requests == Seq::<ResetPasswordRequest>::empty(),
            r@.characters == Seq::<Character>::empty(),
            r@.articles == Seq::<Article>::empty(),
            r@.tags == Seq::<Tag>::empty(),
            r@.content_tags == Seq::<ContentTag>::empty(),
            r@.wf(),
    {
        Store {
            users: Vec::new(),
            sessions: Vec::new(),
            invitations: Vec::new(),
            reset_requests: Vec::new(),
            characters: Vec::new(),
            articles: Vec::new(),
            tags: Vec::new(),
            content_tags: Vec::new(),
        }
    }
}

} // verus!

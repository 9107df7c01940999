use crate::descriptor::{
    fields_of, keys_unique, pair_map, token_view_of, Descriptor, Token, TokenView,
};
use crate::identity::Identity;
use vstd::multiset::Multiset;
use vstd::prelude::*;

verus! {

broadcast use vstd::seq_lib::group_to_multiset_ensures;

/// How the resolution of one record ended.
pub enum Resolution {
    /// The descriptor was fetched and parsed.
    Resolved(Identity, Descriptor),
    /// The fetch failed or the body was not a descriptor.
    Skipped,
}

/// How fetching and parsing one record's descriptor ended.
pub enum FetchOutcome {
    /// The request failed, after every retry.
    RequestFailed,
    /// The body was not a descriptor document.
    BodyInvalid,
    /// The body parsed as a descriptor.
    Parsed(Descriptor),
}

/// A record resolves when its descriptor parsed; every failure is a skip.
pub fn classify(owner: Identity, outcome: FetchOutcome) -> (r: Resolution)
    ensures
        outcome is Parsed <==> r is Resolved,
        outcome is Parsed ==> r == Resolution::Resolved(owner, outcome->Parsed_0),
{
    match outcome {
        FetchOutcome::Parsed(d) => Resolution::Resolved(owner, d),
        FetchOutcome::RequestFailed => Resolution::Skipped,
        FetchOutcome::BodyInvalid => Resolution::Skipped,
    }
}

/// What an aggregator has accumulated.
pub struct Tally {
    pub traits: Set<Seq<char>>,
    pub tokens: Seq<TokenView>,
    pub skipped: nat,
}

/// The tally after one more resolution.
pub open spec fn step(t: Tally, r: Resolution) -> Tally {
    match r {
        Resolution::Resolved(owner, d) => Tally {
            traits: t.traits.union(fields_of(d.attributes@).dom()),
            tokens: t.tokens.push(token_view_of(owner.bytes@, d)),
            skipped: t.skipped,
        },
        Resolution::Skipped => Tally { skipped: t.skipped + 1, ..t },
    }
}

/// The tally after the resolutions `rs`, in that order.
pub open spec fn run(t: Tally, rs: Seq<Resolution>) -> Tally
    decreases rs.len(),
{
    if rs.len() == 0 {
        t
    } else {
        step(run(t, rs.drop_last()), rs.last())
    }
}

/// The text values of `names`, as a set.
pub open spec fn names_set(names: Seq<String>) -> Set<Seq<char>> {
    Set::new(|k: Seq<char>| exists|i: int| 0 <= i < names.len() && names[i]@ == k)
}

pub open spec fn names_unique(names: Seq<String>) -> bool {
    forall|i: int, j: int|
        0 <= i < names.len() && 0 <= j < names.len() && i != j ==> names[i]@ != names[j]@
}

/// Accumulates the report of one collection: the distinct trait types, the
/// resolved tokens, and the number of skipped records.
pub struct Aggregator {
    collection_name: String,
    trait_types: Vec<String>,
    tokens: Vec<Token>,
    skipped: usize,
}

impl View for Aggregator {
    type V = Tally;

    closed spec fn view(&self) -> Tally {
        Tally {
            traits: names_set(self.trait_types@),
            tokens: self.tokens@.map_values(|t: Token| t@),
            skipped: self.skipped as nat,
        }
    }
}

impl Aggregator {
    /// No trait type listed twice, and exactly the trait types that the
    /// tokens carry.
    pub closed spec fn wf(&self) -> bool {
        &&& names_unique(self.trait_types@)
        &&& self@.traits == token_keys(self@.tokens)
    }

    pub closed spec fn name(&self) -> Seq<char> {
        self.collection_name@
    }

    /// An empty report for the named collection.
    pub fn new(collection_name: String) -> (r: Aggregator)
        ensures
            r.wf(),
            r.name() == collection_name@,
            r@ == (Tally { traits: Set::empty(), tokens: Seq::empty(), skipped: 0 }),
    {
        let r = Aggregator {
            collection_name,
            trait_types: Vec::new(),
            tokens: Vec::new(),
            skipped: 0,
        };
        proof {
            assert(r@.traits =~= Set::empty());
            assert(r@.tokens =~= Seq::empty());
            assert(token_keys(r@.tokens) =~= Set::empty());
        }
        r
    }

    /// Adds `name` to the trait types unless it is there.
    fn note_trait(&mut self, name: &String)
        requires
            names_unique(old(self).trait_types@),
        ensures
            names_unique(final(self).trait_types@),
            final(self)@ == (Tally { traits: old(self)@.traits.insert(name@), ..old(self)@ }),
            final(self).collection_name == old(self).collection_name,
            final(self).tokens == old(self).tokens,
            final(self).skipped == old(self).skipped,
    {
        let mut i: usize = 0;
        while i < self.trait_types.len()
            invariant
                i <= self.trait_types.len(),
                *self == *old(self),
                names_unique(self.trait_types@),
                forall|j: int| 0 <= j < i ==> self.trait_types@[j]@ != name@,
            decreases self.trait_types.len() - i,
        {
            if self.trait_types[i] == *name {
                proof {
                    assert(names_set(self.trait_types@) =~= names_set(self.trait_types@).insert(name@));
                }
                return;
            }
            i = i + 1;
        }
        let ghost before = self.trait_types@;
        self.trait_types.push(name.clone());
        proof {
            assert(forall|j: int| 0 <= j < before.len() ==> self.trait_types@[j] == before[j]);
            assert(self.trait_types@[before.len() as int]@ == name@);
            assert forall|k: Seq<char>| names_set(before).insert(name@).contains(k) implies names_set(
                self.trait_types@,
            ).contains(k) by {
                if k == name@ {
                    assert(self.trait_types@[before.len() as int]@ == k);
                } else {
                    let j = choose|j: int| 0 <= j < before.len() && before[j]@ == k;
                    assert(self.trait_types@[j]@ == k);
                }
            }
            assert(names_set(self.trait_types@) =~= names_set(before).insert(name@));
        }
    }

    /// Takes in a resolved item: notes its trait types and appends its token.
    pub fn observe(&mut self, owner: Identity, descriptor: Descriptor)
        requires
            old(self).wf(),
        ensures
            final(self).wf(),
            final(self)@ == step(old(self)@, Resolution::Resolved(owner, descriptor)),
            final(self).name() == old(self).name(),
    {
        let ghost d = descriptor;
        let token = Token::from_resolved(owner, descriptor);
        let ghost start = self@;
        let mut i: usize = 0;
        proof {
            assert(token.attributes@.take(0) =~= Seq::empty());
            assert(pair_map(token.attributes@.take(0)).dom() =~= Set::empty());
            assert(start.traits.union(Set::empty()) =~= start.traits);
        }
        while i < token.attributes.len()
            invariant
                names_unique(self.trait_types@),
                i <= token.attributes.len(),
                self@ == (Tally {
                    traits: start.traits.union(pair_map(token.attributes@.take(i as int)).dom()),
                    ..start
                }),
                self.collection_name == old(self).collection_name,
            decreases token.attributes.len() - i,
        {
            proof {
                assert(token.attributes@.take(i + 1).drop_last() =~= token.attributes@.take(
                    i as int,
                ));
            }
            self.note_trait(&token.attributes[i].0);
            i = i + 1;
            proof {
                assert(self@.traits =~= start.traits.union(
                    pair_map(token.attributes@.take(i as int)).dom(),
                ));
            }
        }
        proof {
            assert(token.attributes@.take(i as int) =~= token.attributes@);
        }
        self.tokens.push(token);
        proof {
            assert(self@.tokens =~= start.tokens.push(token_view_of(owner.bytes@, d)));
            lemma_step_keeps_keys(start, Resolution::Resolved(owner, d));
        }
    }

    /// Counts one skipped record.
    pub fn skip(&mut self)
        requires
            old(self)@.skipped < usize::MAX,
        ensures
            final(self).wf() == old(self).wf(),
            final(self)@ == step(old(self)@, Resolution::Skipped),
            final(self).name() == old(self).name(),
    {
        self.skipped = self.skipped + 1;
        proof {
            assert(self@.tokens =~= old(self)@.tokens);
        }
    }

    /// Takes in the outcome of one resolution.
    pub fn record(&mut self, resolution: Resolution)
        requires
            old(self).wf(),
            old(self)@.skipped < usize::MAX,
        ensures
            final(self).wf(),
            final(self)@ == step(old(self)@, resolution),
            final(self).name() == old(self).name(),
    {
        match resolution {
            Resolution::Resolved(owner, descriptor) => self.observe(owner, descriptor),
            Resolution::Skipped => self.skip(),
        }
    }

    pub fn skipped(&self) -> (r: usize)
        ensures
            r as nat == self@.skipped,
    {
        self.skipped
    }

    pub fn collection_name(&self) -> (r: &String)
        ensures
            r@ == self.name(),
    {
        &self.collection_name
    }

    pub fn trait_types(&self) -> (r: &Vec<String>)
        ensures
            names_set(r@) == self@.traits,
            self.wf() ==> names_unique(r@),
    {
        &self.trait_types
    }

    pub fn tokens(&self) -> (r: &Vec<Token>)
        ensures
            r@.map_values(|t: Token| t@) == self@.tokens,
    {
        &self.tokens
    }

    /// Hands over the finished report: name, trait types, tokens, skipped count.
    pub fn into_parts(self) -> (r: (String, Vec<String>, Vec<Token>, usize))
        ensures
            r.0@ == self.name(),
            names_set(r.1@) == self@.traits,
            self.wf() ==> names_unique(r.1@),
            r.2@.map_values(|t: Token| t@) == self@.tokens,
            r.3 as nat == self@.skipped,
    {
        (self.collection_name, self.trait_types, self.tokens, self.skipped)
    }
}

/// The tokens that the resolved items among `rs` contribute, as a multiset.
pub open spec fn token_bag(rs: Seq<Resolution>) -> Multiset<TokenView>
    decreases rs.len(),
{
    if rs.len() == 0 {
        Multiset::empty()
    } else {
        token_bag(rs.drop_last()).add(token_of(rs.last()))
    }
}

/// The token that one resolution contributes, if any.
pub open spec fn token_of(r: Resolution) -> Multiset<TokenView> {
    match r {
        Resolution::Resolved(owner, d) => Multiset::singleton(token_view_of(owner.bytes@, d)),
        Resolution::Skipped => Multiset::empty(),
    }
}

/// The trait types that any resolved item among `rs` declares.
pub open spec fn traits_in(rs: Seq<Resolution>) -> Set<Seq<char>> {
    Set::new(
        |k: Seq<char>|
            exists|i: int|
                0 <= i < rs.len() && #[trigger] rs[i] is Resolved && fields_of(
                    rs[i]->Resolved_1.attributes@,
                ).contains_key(k),
    )
}

proof fn lemma_run_shape(t: Tally, rs: Seq<Resolution>)
    ensures
        run(t, rs).traits == t.traits.union(traits_in(rs)),
        run(t, rs).tokens.to_multiset() == t.tokens.to_multiset().add(token_bag(rs)),
        run(t, rs).skipped + run(t, rs).tokens.len() == t.skipped + t.tokens.len() + rs.len(),
    decreases rs.len(),
{
    if rs.len() == 0 {
        assert(traits_in(rs) =~= Set::empty());
        assert(t.traits.union(Set::empty()) =~= t.traits);
        assert(t.tokens.to_multiset().add(Multiset::empty()) =~= t.tokens.to_multiset());
    } else {
        let init = rs.drop_last();
        lemma_run_shape(t, init);
        let prev = run(t, init);
        let last = rs.last();
        assert forall|i: int| 0 <= i < init.len() implies init[i] == rs[i] by {}
        match last {
            Resolution::Resolved(owner, d) => {
                assert(traits_in(rs) =~= traits_in(init).union(fields_of(d.attributes@).dom()))
                    by {
                    assert forall|k: Seq<char>| traits_in(rs).contains(k) implies traits_in(
                        init,
                    ).union(fields_of(d.attributes@).dom()).contains(k) by {
                        let i = choose|i: int|
                            0 <= i < rs.len() && #[trigger] rs[i] is Resolved && fields_of(
                                rs[i]->Resolved_1.attributes@,
                            ).contains_key(k);
                        if i < init.len() {
                            assert(init[i] is Resolved);
                        }
                    }
                    assert forall|k: Seq<char>| traits_in(init).union(fields_of(d.attributes@).dom()).contains(k) implies traits_in(rs).contains(k) by {
                        if fields_of(d.attributes@).dom().contains(k) {
                            assert(rs[rs.len() - 1] is Resolved);
                        } else {
                            let i = choose|i: int|
                                0 <= i < init.len() && #[trigger] init[i] is Resolved && fields_of(
                                    init[i]->Resolved_1.attributes@,
                                ).contains_key(k);
                            assert(rs[i] is Resolved);
                        }
                    }
                }
                assert(run(t, rs).traits =~= t.traits.union(traits_in(rs)));
                assert(run(t, rs).tokens.to_multiset() =~= t.tokens.to_multiset().add(
                    token_bag(rs),
                ));
            },
            Resolution::Skipped => {
                assert(traits_in(rs) =~= traits_in(init)) by {
                    assert forall|k: Seq<char>| traits_in(rs).contains(k) implies traits_in(
                        init,
                    ).contains(k) by {
                        let i = choose|i: int|
                            0 <= i < rs.len() && #[trigger] rs[i] is Resolved && fields_of(
                                rs[i]->Resolved_1.attributes@,
                            ).contains_key(k);
                        assert(i < init.len());
                        assert(init[i] is Resolved);
                    }
                    assert forall|k: Seq<char>| traits_in(init).contains(k) implies traits_in(
                        rs,
                    ).contains(k) by {
                        let i = choose|i: int|
                            0 <= i < init.len() && #[trigger] init[i] is Resolved && fields_of(
                                init[i]->Resolved_1.attributes@,
                            ).contains_key(k);
                        assert(rs[i] is Resolved);
                    }
                }
                assert(token_bag(rs) =~= token_bag(init));
            },
        }
    }
}

proof fn lemma_token_bag_remove(rs: Seq<Resolution>, j: int)
    requires
        0 <= j < rs.len(),
    ensures
        token_bag(rs) == token_bag(rs.remove(j)).add(token_of(rs[j])),
    decreases rs.len(),
{
    let init = rs.drop_last();
    if j == rs.len() - 1 {
        assert(rs.remove(j) =~= init);
    } else {
        lemma_token_bag_remove(init, j);
        assert(rs.remove(j).drop_last() =~= init.remove(j));
        assert(rs.remove(j).last() == rs.last());
        assert(token_bag(rs) =~= token_bag(rs.remove(j)).add(token_of(rs[j])));
    }
}

proof fn lemma_token_bag_permutation(rs1: Seq<Resolution>, rs2: Seq<Resolution>)
    requires
        rs1.to_multiset() == rs2.to_multiset(),
    ensures
        token_bag(rs1) == token_bag(rs2),
    decreases rs1.len(),
{
    vstd::seq_lib::to_multiset_len(rs1);
    vstd::seq_lib::to_multiset_len(rs2);
    if rs1.len() == 0 {
        assert(rs2.len() == 0);
        assert(token_bag(rs1) =~= token_bag(rs2));
    } else {
        let x = rs1.last();
        let init = rs1.drop_last();
        assert(init.push(x) =~= rs1);
        vstd::seq_lib::to_multiset_build(init, x);
        assert(rs1.contains(x)) by {
            assert(rs1[rs1.len() - 1] == x);
        }
        assert(rs2.to_multiset().count(x) > 0);
        assert(rs2.contains(x));
        let j = choose|j: int| 0 <= j < rs2.len() && rs2[j] == x;
        vstd::seq_lib::to_multiset_remove(rs2, j);
        assert(init.to_multiset() =~= rs2.remove(j).to_multiset());
        lemma_token_bag_permutation(init, rs2.remove(j));
        lemma_token_bag_remove(rs2, j);
    }
}

/// The report does not depend on the order in which resolutions arrive: any
/// two orders of the same resolutions give the same trait types, the same
/// tokens up to order, and the same skipped count.
pub proof fn lemma_observe_order_independent(t: Tally, rs1: Seq<Resolution>, rs2: Seq<Resolution>)
    requires
        rs1.to_multiset() == rs2.to_multiset(),
    ensures
        run(t, rs1).traits == run(t, rs2).traits,
        run(t, rs1).tokens.to_multiset() == run(t, rs2).tokens.to_multiset(),
        run(t, rs1).skipped == run(t, rs2).skipped,
{
    lemma_run_shape(t, rs1);
    lemma_run_shape(t, rs2);
    lemma_token_bag_permutation(rs1, rs2);
    assert(traits_in(rs1) =~= traits_in(rs2)) by {
        assert forall|k: Seq<char>| traits_in(rs1).contains(k) implies traits_in(rs2).contains(k) by {
            let i = choose|i: int|
                0 <= i < rs1.len() && #[trigger] rs1[i] is Resolved && fields_of(
                    rs1[i]->Resolved_1.attributes@,
                ).contains_key(k);
            assert(rs1.contains(rs1[i]));
            assert(rs1.to_multiset().count(rs1[i]) > 0);
            assert(rs2.to_multiset().count(rs1[i]) > 0);
            assert(rs2.contains(rs1[i]));
            let j = choose|j: int| 0 <= j < rs2.len() && rs2[j] == rs1[i];
            assert(rs2[j] is Resolved);
        }
        assert forall|k: Seq<char>| traits_in(rs2).contains(k) implies traits_in(rs1).contains(k) by {
            let i = choose|i: int|
                0 <= i < rs2.len() && #[trigger] rs2[i] is Resolved && fields_of(
                    rs2[i]->Resolved_1.attributes@,
                ).contains_key(k);
            assert(rs2.contains(rs2[i]));
            assert(rs2.to_multiset().count(rs2[i]) > 0);
            assert(rs1.to_multiset().count(rs2[i]) > 0);
            assert(rs1.contains(rs2[i]));
            let j = choose|j: int| 0 <= j < rs1.len() && rs1[j] == rs2[i];
            assert(rs1[j] is Resolved);
        }
    }
    vstd::seq_lib::to_multiset_len(run(t, rs1).tokens);
    vstd::seq_lib::to_multiset_len(run(t, rs2).tokens);
    vstd::seq_lib::to_multiset_len(rs1);
    vstd::seq_lib::to_multiset_len(rs2);
}

/// The trait types that some token among `tokens` carries.
pub open spec fn token_keys(tokens: Seq<TokenView>) -> Set<Seq<char>> {
    Set::new(
        |k: Seq<char>|
            exists|i: int| 0 <= i < tokens.len() && #[trigger] tokens[i].fields.contains_key(k),
    )
}

/// The trait types of a tally are exactly those that its tokens carry, and
/// taking in resolutions keeps it so.
pub proof fn lemma_traits_match_tokens(t: Tally, rs: Seq<Resolution>)
    requires
        t.traits == token_keys(t.tokens),
    ensures
        run(t, rs).traits == token_keys(run(t, rs).tokens),
    decreases rs.len(),
{
    if rs.len() > 0 {
        lemma_traits_match_tokens(t, rs.drop_last());
        let prev = run(t, rs.drop_last());
        match rs.last() {
            Resolution::Resolved(owner, d) => {
                let next = prev.tokens.push(token_view_of(owner.bytes@, d));
                assert forall|k: Seq<char>| token_keys(next).contains(k) implies prev.traits.union(
                    fields_of(d.attributes@).dom(),
                ).contains(k) by {
                    let i = choose|i: int|
                        0 <= i < next.len() && #[trigger] next[i].fields.contains_key(k);
                    if i < prev.tokens.len() {
                        assert(prev.tokens[i].fields.contains_key(k));
                    }
                }
                assert forall|k: Seq<char>| prev.traits.union(fields_of(d.attributes@).dom()).contains(k)
                    implies token_keys(next).contains(k) by {
                    if fields_of(d.attributes@).dom().contains(k) {
                        assert(next[prev.tokens.len() as int].fields.contains_key(k));
                    } else {
                        let i = choose|i: int|
                            0 <= i < prev.tokens.len() && #[trigger] prev.tokens[i].fields.contains_key(k);
                        assert(next[i].fields.contains_key(k));
                    }
                }
                assert(run(t, rs).traits =~= token_keys(run(t, rs).tokens));
            },
            Resolution::Skipped => {},
        }
    }
}

/// A well-formed aggregator lists exactly the trait types its tokens carry.
pub proof fn lemma_traits_are_token_keys(a: &Aggregator)
    requires
        a.wf(),
    ensures
        a@.traits == token_keys(a@.tokens),
{
}

proof fn lemma_step_keeps_keys(t: Tally, r: Resolution)
    requires
        t.traits == token_keys(t.tokens),
    ensures
        step(t, r).traits == token_keys(step(t, r).tokens),
{
    let rs = seq![r];
    assert(rs.drop_last() =~= Seq::<Resolution>::empty());
    assert(rs.last() == r);
    assert(run(t, rs.drop_last()) == t);
    assert(run(t, rs) == step(t, r));
    lemma_traits_match_tokens(t, rs);
}

/// Every resolution is counted once: the skipped count plus the number of
/// tokens grows by exactly the number of resolutions taken in.
pub proof fn lemma_skip_accounting(rs: Seq<Resolution>)
    ensures
        run(Tally { traits: Set::empty(), tokens: Seq::empty(), skipped: 0 }, rs).skipped + run(
            Tally { traits: Set::empty(), tokens: Seq::empty(), skipped: 0 },
            rs,
        ).tokens.len() == rs.len(),
{
    lemma_run_shape(Tally { traits: Set::empty(), tokens: Seq::empty(), skipped: 0 }, rs);
}

} // verus!

use vstd::prelude::*;

use crate::bson_model::{
    append_values, duplicate_all, items_view, names_model, push_value, string_views, Bson, BsonV,
};
use crate::data::edm::{EarlyDayMotion, EarlyDayMotionExtra, MotionKind};
use crate::data::member::Member;
use crate::data::party::Party;
use crate::data::DatasetItem;

verus! {

broadcast use vstd::std_specs::vec::group_vec_axioms;

/// A motion that a report found, with its signatures and the value the
/// report computed for it.
#[derive(Debug)]
pub struct QueryItem {
    pub item: DatasetItem<EarlyDayMotion, EarlyDayMotionExtra>,
    pub signatures: Vec<Signature>,
    pub result: Bson,
}

/// A signature with its member and the member's party; dates are
/// milliseconds since the Unix epoch.
#[derive(Clone, Debug, PartialEq, Eq, Hash, PartialOrd, Ord)]
pub struct Signature {
    pub member: Member,
    pub party: Party,
    pub creation_date: i64,
    pub withdrawal_date: Option<i64>,
    pub sponsoring_order: Option<u32>,
}

/// Something that becomes a sequence of aggregation stages.
pub trait Query {
    /// The stages, as models.
    spec fn stages(&self) -> Seq<BsonV>;

    fn build(&self) -> (r: Vec<Bson>)
        ensures
            items_view(r@) == self.stages(),
    ;
}

/// A single document is the one stage it holds.
impl Query for Bson {
    open spec fn stages(&self) -> Seq<BsonV> {
        Seq::empty().push(self.model())
    }

    fn build(&self) -> (r: Vec<Bson>) {
        let mut v: Vec<Bson> = Vec::new();
        push_value(&mut v, self.duplicate());
        v
    }
}

/// The stages of each query of a sequence, one query after another.
pub open spec fn flatten_stages<Q: Query>(qs: Seq<Q>) -> Seq<BsonV>
    decreases qs.len(),
{
    if qs.len() == 0 {
        Seq::empty()
    } else {
        flatten_stages(qs.drop_last()) + qs.last().stages()
    }
}

/// A sequence of queries is their stages, one query after another.
impl<Q: Query> Query for Vec<Q> {
    open spec fn stages(&self) -> Seq<BsonV> {
        flatten_stages(self@)
    }

    fn build(&self) -> (r: Vec<Bson>) {
        let mut v: Vec<Bson> = Vec::new();
        let mut i: usize = 0;
        while i < self.len()
            invariant
                i <= self.len(),
                items_view(v@) == flatten_stages(self@.take(i as int)),
            decreases self.len() - i,
        {
            let part = self[i].build();
            append_values(&mut v, part);
            assert(self@.take(i + 1).drop_last() =~= self@.take(i as int));
            i = i + 1;
        }
        assert(self@.take(self.len() as int) =~= self@);
        v
    }
}

/// Chaining of queries.
pub trait DocumentExt: Query + Sized {
    /// The stages of `self` followed by those of `query`.
    fn doc_add<Q: Query>(self, query: Q) -> (r: Vec<Bson>)
        ensures
            items_view(r@) == self.stages() + query.stages(),
    ;
}

impl<T: Query> DocumentExt for T {
    fn doc_add<Q: Query>(self, query: Q) -> (r: Vec<Bson>) {
        let mut value = self.build();
        append_values(&mut value, query.build());
        value
    }
}

/// The models of a sequence of stage sequences.
pub open spec fn groups_view(gs: Seq<Vec<Bson>>) -> Seq<Seq<BsonV>> {
    gs.map_values(|g: Vec<Bson>| items_view(g@))
}

/// The stage sequences of `gs`, one after another.
pub open spec fn concat_groups(gs: Seq<Seq<BsonV>>) -> Seq<BsonV>
    decreases gs.len(),
{
    if gs.len() == 0 {
        Seq::empty()
    } else {
        concat_groups(gs.drop_last()) + gs.last()
    }
}

/// Each part framed by `prepend` before it and `append` after it, one
/// framed part after another.
pub open spec fn framed_parts(
    prepend: Seq<BsonV>,
    parts: Seq<Seq<BsonV>>,
    append: Seq<BsonV>,
) -> Seq<BsonV>
    decreases parts.len(),
{
    if parts.len() == 0 {
        Seq::empty()
    } else {
        framed_parts(prepend, parts.drop_last(), append) + (prepend + parts.last() + append)
    }
}

/// A query made of groups that each start with the same stages
/// (`prepend`) and end with the same stages (`append`).
pub struct GroupQuery {
    pub prepend: Vec<Bson>,
    pub groups: Vec<Vec<Bson>>,
    pub append: Vec<Bson>,
}

impl Default for GroupQuery {
    fn default() -> (r: Self)
        ensures
            r.prepend@.len() == 0,
            r.groups@.len() == 0,
            r.append@.len() == 0,
    {
        GroupQuery { prepend: Vec::new(), groups: Vec::new(), append: Vec::new() }
    }
}

impl GroupQuery {
    /// Adds the stages of `value` to those each later group starts with.
    pub fn prepend<Q: Query>(self, value: Q) -> (r: Self)
        ensures
            items_view(r.prepend@) == items_view(self.prepend@) + value.stages(),
            r.groups == self.groups,
            r.append == self.append,
    {
        let mut s = self;
        append_values(&mut s.prepend, value.build());
        s
    }

    /// Adds a group: the stages it starts with, those of `value`, and
    /// those it ends with.
    pub fn with<Q: Query>(self, value: Q) -> (r: Self)
        ensures
            r.prepend == self.prepend,
            r.append == self.append,
            groups_view(r.groups@) == groups_view(self.groups@).push(
                items_view(self.prepend@) + value.stages() + items_view(self.append@),
            ),
    {
        let mut s = self;
        let mut group = duplicate_all(&s.prepend);
        append_values(&mut group, value.build());
        append_values(&mut group, duplicate_all(&s.append));
        let ghost old_groups = s.groups@;
        s.groups.push(group);
        assert(groups_view(s.groups@) =~= groups_view(old_groups).push(items_view(group@)));
        s
    }

    /// Adds the stages of `value` to those each later group ends with.
    pub fn append<Q: Query>(self, value: Q) -> (r: Self)
        ensures
            items_view(r.append@) == items_view(self.append@) + value.stages(),
            r.groups == self.groups,
            r.prepend == self.prepend,
    {
        let mut s = self;
        append_values(&mut s.append, value.build());
        s
    }
}

/// A group query is its groups, one after another.
impl Query for GroupQuery {
    open spec fn stages(&self) -> Seq<BsonV> {
        concat_groups(groups_view(self.groups@))
    }

    fn build(&self) -> (r: Vec<Bson>) {
        let mut v: Vec<Bson> = Vec::new();
        let mut i: usize = 0;
        while i < self.groups.len()
            invariant
                i <= self.groups.len(),
                items_view(v@) == concat_groups(groups_view(self.groups@.take(i as int))),
            decreases self.groups.len() - i,
        {
            append_values(&mut v, duplicate_all(&self.groups[i]));
            assert(groups_view(self.groups@.take(i + 1)).drop_last() =~= groups_view(
                self.groups@.take(i as int),
            ));
            i = i + 1;
        }
        assert(self.groups@.take(self.groups.len() as int) =~= self.groups@);
        v
    }
}

/// `"result." + result`: where a stage writes its result.
pub open spec fn result_path(result: Seq<char>) -> Seq<char> {
    "result."@ + result
}

pub fn result_path_of(result: &String) -> (r: String)
    ensures
        r@ == result_path(result@),
{
    String::from_str("result.").concat(result.as_str())
}

/// The post lists that a bench filter looks at: government and opposition
/// posts, or only one of them.
pub open spec fn bench_posts_model(government: Option<bool>) -> BsonV {
    match government {
        None => BsonV::arr()
            .item(BsonV::String("$$signature.member.biography.government_posts"@))
            .item(BsonV::String("$$signature.member.biography.opposition_posts"@)),
        Some(true) => BsonV::arr()
            .item(BsonV::String("$$signature.member.biography.government_posts"@)),
        Some(false) => BsonV::arr()
            .item(BsonV::String("$$signature.member.biography.opposition_posts"@)),
    }
}

pub fn bench_posts(government: Option<bool>) -> (r: Bson)
    ensures
        r.model() == bench_posts_model(government),
{
    match government {
        None => Bson::array()
            .item(Bson::str("$$signature.member.biography.government_posts"))
            .item(Bson::str("$$signature.member.biography.opposition_posts")),
        Some(true) => Bson::array()
            .item(Bson::str("$$signature.member.biography.government_posts")),
        Some(false) => Bson::array()
            .item(Bson::str("$$signature.member.biography.opposition_posts")),
    }
}

/// The codes of motion kinds, as BSON integers.
pub open spec fn motion_kinds_view(kinds: Seq<MotionKind>) -> Seq<BsonV> {
    kinds.map_values(|k: MotionKind| BsonV::Int32(k.spec_code()))
}

pub fn motion_kind_codes(kinds: &Vec<MotionKind>) -> (r: Bson)
    ensures
        r.model() == BsonV::Array(motion_kinds_view(kinds@)),
{
    let mut v: Vec<Bson> = Vec::new();
    let mut i: usize = 0;
    while i < kinds.len()
        invariant
            i <= kinds.len(),
            items_view(v@) == motion_kinds_view(kinds@.take(i as int)),
        decreases kinds.len() - i,
    {
        push_value(&mut v, Bson::Int32(kinds[i].code()));
        assert(motion_kinds_view(kinds@.take(i + 1)) =~= motion_kinds_view(kinds@.take(i as int)).push(
            BsonV::Int32(kinds@[i as int].spec_code()),
        ));
        i = i + 1;
    }
    assert(kinds@.take(kinds.len() as int) =~= kinds@);
    Bson::Array(v)
}

/// The condition on the date tabled: at or after `start_date`, at or
/// before `end_date`, and present when neither bound is given.
pub open spec fn date_range_model(start_date: Option<i64>, end_date: Option<i64>) -> BsonV {
    match (start_date, end_date) {
        (Some(s), Some(e)) => BsonV::doc().with("$gte"@, BsonV::DateTime(s)).with(
            "$lte"@,
            BsonV::DateTime(e),
        ),
        (Some(s), None) => BsonV::doc().with("$gte"@, BsonV::DateTime(s)),
        (None, Some(e)) => BsonV::doc().with("$lte"@, BsonV::DateTime(e)),
        (None, None) => BsonV::doc().with("$ne"@, BsonV::Null),
    }
}

pub fn date_range(start_date: Option<i64>, end_date: Option<i64>) -> (r: Bson)
    ensures
        r.model() == date_range_model(start_date, end_date),
{
    match (start_date, end_date) {
        (Some(s), Some(e)) => Bson::doc().with("$gte", Bson::DateTime(s)).with(
            "$lte",
            Bson::DateTime(e),
        ),
        (Some(s), None) => Bson::doc().with("$gte", Bson::DateTime(s)),
        (None, Some(e)) => Bson::doc().with("$lte", Bson::DateTime(e)),
        (None, None) => Bson::doc().with("$ne", Bson::Null),
    }
}

/// Sets the primary sponsor, id, title, text and date tabled of each motion in its result.
#[derive(Clone, Debug, Default, PartialEq, Eq, Hash)]
pub struct SetEarlyDayMotionData {}

/// The stages of [`SetEarlyDayMotionData`].
pub open spec fn set_edm_data_stages() -> Seq<BsonV> {
    Seq::empty()
        .push(BsonV::doc()
            .with("$set"@, BsonV::doc()
                .with("result.primary_sponsor"@, BsonV::doc()
                    .with("$getField"@, BsonV::doc()
                        .with("input"@, BsonV::doc()
                            .with("$arrayElemAt"@, BsonV::arr()
                                .item(BsonV::doc()
                                    .with("$filter"@, BsonV::doc()
                                        .with("input"@, BsonV::String("$signatures_copy"@))
                                        .with("as"@, BsonV::String("signature"@))
                                        .with("cond"@, BsonV::doc()
                                            .with("$eq"@, BsonV::arr()
                                                .item(BsonV::String("$$signature.sponsoring_order"@))
                                                .item(BsonV::Int32(1i32))))))
                                .item(BsonV::Int32(0i32))))
                        .with("field"@, BsonV::String("display_name"@))))
                .with("result.id"@, BsonV::String("$item._id"@))
                .with("result.title"@, BsonV::String("$item.title"@))
                .with("result.text"@, BsonV::String("$item.motion_text"@))
                .with("result.date_tabled"@, BsonV::String("$item.date_tabled"@))))
}

impl SetEarlyDayMotionData {
    pub fn new() -> (r: Self)
        ensures
            r == (Self {}),
    {
        Self {}
    }
}

impl Query for SetEarlyDayMotionData {
    open spec fn stages(&self) -> Seq<BsonV> {
        set_edm_data_stages()
    }

    fn build(&self) -> (r: Vec<Bson>) {
        let mut stages: Vec<Bson> = Vec::new();
        push_value(&mut stages, Bson::doc()
            .with("$set", Bson::doc()
                .with("result.primary_sponsor", Bson::doc()
                    .with("$getField", Bson::doc()
                        .with("input", Bson::doc()
                            .with("$arrayElemAt", Bson::array()
                                .item(Bson::doc()
                                    .with("$filter", Bson::doc()
                                        .with("input", Bson::str("$signatures_copy"))
                                        .with("as", Bson::str("signature"))
                                        .with("cond", Bson::doc()
                                            .with("$eq", Bson::array()
                                                .item(Bson::str("$$signature.sponsoring_order"))
                                                .item(Bson::Int32(1))))))
                                .item(Bson::Int32(0))))
                        .with("field", Bson::str("display_name"))))
                .with("result.id", Bson::str("$item._id"))
                .with("result.title", Bson::str("$item.title"))
                .with("result.text", Bson::str("$item.motion_text"))
                .with("result.date_tabled", Bson::str("$item.date_tabled"))));
        stages
    }
}

/// Gathers the signatures of each motion and of the motions that amend it, with the signing member and party of each.
#[derive(Clone, Debug, Default, PartialEq, Eq, Hash)]
pub struct CollectSignatures {}

/// The stages of [`CollectSignatures`].
pub open spec fn collect_signatures_stages() -> Seq<BsonV> {
    Seq::empty()
        .push(BsonV::doc()
            .with("$lookup"@, BsonV::doc()
                .with("from"@, BsonV::String("early-day-motions"@))
                .with("localField"@, BsonV::String("item._id"@))
                .with("foreignField"@, BsonV::String("item.amends.motion_id"@))
                .with("as"@, BsonV::String("edms"@))))
        .push(BsonV::doc()
            .with("$unwind"@, BsonV::doc()
                .with("path"@, BsonV::String("$edms"@))
                .with("preserveNullAndEmptyArrays"@, BsonV::Boolean(true))))
        .push(BsonV::doc()
            .with("$group"@, BsonV::doc()
                .with("_id"@, BsonV::String("$_id"@))
                .with("item"@, BsonV::doc()
                    .with("$first"@, BsonV::String("$item"@)))
                .with("extra"@, BsonV::doc()
                    .with("$first"@, BsonV::String("$extra"@)))
                .with("signatures"@, BsonV::doc()
                    .with("$concatArrays"@, BsonV::doc()
                        .with("$ifNull"@, BsonV::arr()
                            .item(BsonV::String("$edms.item.withdrawn_signatures"@))
                            .item(BsonV::arr()))))))
        .push(BsonV::doc()
            .with("$set"@, BsonV::doc()
                .with("signatures"@, BsonV::doc()
                    .with("$setUnion"@, BsonV::arr()
                        .item(BsonV::doc()
                            .with("$ifNull"@, BsonV::arr()
                                .item(BsonV::String("$item.supporting_signatures"@))
                                .item(BsonV::arr())))
                        .item(BsonV::doc()
                            .with("$ifNull"@, BsonV::arr()
                                .item(BsonV::String("$item.withdrawn_signatures"@))
                                .item(BsonV::arr())))
                        .item(BsonV::String("$signatures"@))))))
        .push(BsonV::doc()
            .with("$lookup"@, BsonV::doc()
                .with("from"@, BsonV::String("members"@))
                .with("localField"@, BsonV::String("signatures.member_id"@))
                .with("foreignField"@, BsonV::String("item._id"@))
                .with("as"@, BsonV::String("members"@))))
        .push(BsonV::doc()
            .with("$set"@, BsonV::doc()
                .with("members.item.edms"@, BsonV::arr())))
        .push(BsonV::doc()
            .with("$lookup"@, BsonV::doc()
                .with("from"@, BsonV::String("parties"@))
                .with("localField"@, BsonV::String("members.item.party_id"@))
                .with("foreignField"@, BsonV::String("item._id"@))
                .with("as"@, BsonV::String("parties"@))))
        .push(BsonV::doc()
            .with("$set"@, BsonV::doc()
                .with("signatures"@, BsonV::doc()
                    .with("$map"@, BsonV::doc()
                        .with("input"@, BsonV::String("$members"@))
                        .with("as"@, BsonV::String("member"@))
                        .with("in"@, BsonV::doc()
                            .with("member"@, BsonV::String("$$member.item"@))
                            .with("party"@, BsonV::doc()
                                .with("$getField"@, BsonV::doc()
                                    .with("input"@, BsonV::doc()
                                        .with("$arrayElemAt"@, BsonV::arr()
                                            .item(BsonV::doc()
                                                .with("$filter"@, BsonV::doc()
                                                    .with("input"@, BsonV::String("$parties"@))
                                                    .with("as"@, BsonV::String("party"@))
                                                    .with("cond"@, BsonV::doc()
                                                        .with("$eq"@, BsonV::arr()
                                                            .item(BsonV::String("$$party.item._id"@))
                                                            .item(BsonV::String("$$member.item.party_id"@))))))
                                            .item(BsonV::Int32(0i32))))
                                    .with("field"@, BsonV::String("item"@))))
                            .with("creation_date"@, BsonV::doc()
                                .with("$getField"@, BsonV::doc()
                                    .with("input"@, BsonV::doc()
                                        .with("$arrayElemAt"@, BsonV::arr()
                                            .item(BsonV::doc()
                                                .with("$filter"@, BsonV::doc()
                                                    .with("input"@, BsonV::String("$signatures"@))
                                                    .with("as"@, BsonV::String("signature"@))
                                                    .with("cond"@, BsonV::doc()
                                                        .with("$eq"@, BsonV::arr()
                                                            .item(BsonV::String("$$signature.member_id"@))
                                                            .item(BsonV::String("$$member.item._id"@))))))
                                            .item(BsonV::Int32(0i32))))
                                    .with("field"@, BsonV::String("creation_date"@))))
                            .with("withdrawal_date"@, BsonV::doc()
                                .with("$getField"@, BsonV::doc()
                                    .with("input"@, BsonV::doc()
                                        .with("$arrayElemAt"@, BsonV::arr()
                                            .item(BsonV::doc()
                                                .with("$filter"@, BsonV::doc()
                                                    .with("input"@, BsonV::String("$signatures"@))
                                                    .with("as"@, BsonV::String("signature"@))
                                                    .with("cond"@, BsonV::doc()
                                                        .with("$eq"@, BsonV::arr()
                                                            .item(BsonV::String("$$signature.member_id"@))
                                                            .item(BsonV::String("$$member.item._id"@))))))
                                            .item(BsonV::Int32(0i32))))
                                    .with("field"@, BsonV::String("withdrawal_date"@))))
                            .with("sponsoring_order"@, BsonV::doc()
                                .with("$getField"@, BsonV::doc()
                                    .with("input"@, BsonV::doc()
                                        .with("$arrayElemAt"@, BsonV::arr()
                                            .item(BsonV::doc()
                                                .with("$filter"@, BsonV::doc()
                                                    .with("input"@, BsonV::String("$signatures"@))
                                                    .with("as"@, BsonV::String("signature"@))
                                                    .with("cond"@, BsonV::doc()
                                                        .with("$eq"@, BsonV::arr()
                                                            .item(BsonV::String("$$signature.member_id"@))
                                                            .item(BsonV::String("$$member.item._id"@))))))
                                            .item(BsonV::Int32(0i32))))
                                    .with("field"@, BsonV::String("sponsoring_order"@)))))))))
        .push(BsonV::doc()
            .with("$set"@, BsonV::doc()
                .with("signatures_copy"@, BsonV::String("$signatures"@))))
        .push(BsonV::doc()
            .with("$project"@, BsonV::doc()
                .with("edms"@, BsonV::Int32(0i32))
                .with("members"@, BsonV::Int32(0i32))
                .with("parties"@, BsonV::Int32(0i32))))
}

impl CollectSignatures {
    pub fn new() -> (r: Self)
        ensures
            r == (Self {}),
    {
        Self {}
    }
}

impl Query for CollectSignatures {
    open spec fn stages(&self) -> Seq<BsonV> {
        collect_signatures_stages()
    }

    fn build(&self) -> (r: Vec<Bson>) {
        let mut stages: Vec<Bson> = Vec::new();
        push_value(&mut stages, Bson::doc()
            .with("$lookup", Bson::doc()
                .with("from", Bson::str("early-day-motions"))
                .with("localField", Bson::str("item._id"))
                .with("foreignField", Bson::str("item.amends.motion_id"))
                .with("as", Bson::str("edms"))));
        push_value(&mut stages, Bson::doc()
            .with("$unwind", Bson::doc()
                .with("path", Bson::str("$edms"))
                .with("preserveNullAndEmptyArrays", Bson::Boolean(true))));
        push_value(&mut stages, Bson::doc()
            .with("$group", Bson::doc()
                .with("_id", Bson::str("$_id"))
                .with("item", Bson::doc()
                    .with("$first", Bson::str("$item")))
                .with("extra", Bson::doc()
                    .with("$first", Bson::str("$extra")))
                .with("signatures", Bson::doc()
                    .with("$concatArrays", Bson::doc()
                        .with("$ifNull", Bson::array()
                            .item(Bson::str("$edms.item.withdrawn_signatures"))
                            .item(Bson::array()))))));
        push_value(&mut stages, Bson::doc()
            .with("$set", Bson::doc()
                .with("signatures", Bson::doc()
                    .with("$setUnion", Bson::array()
                        .item(Bson::doc()
                            .with("$ifNull", Bson::array()
                                .item(Bson::str("$item.supporting_signatures"))
                                .item(Bson::array())))
                        .item(Bson::doc()
                            .with("$ifNull", Bson::array()
                                .item(Bson::str("$item.withdrawn_signatures"))
                                .item(Bson::array())))
                        .item(Bson::str("$signatures"))))));
        push_value(&mut stages, Bson::doc()
            .with("$lookup", Bson::doc()
                .with("from", Bson::str("members"))
                .with("localField", Bson::str("signatures.member_id"))
                .with("foreignField", Bson::str("item._id"))
                .with("as", Bson::str("members"))));
        push_value(&mut stages, Bson::doc()
            .with("$set", Bson::doc()
                .with("members.item.edms", Bson::array())));
        push_value(&mut stages, Bson::doc()
            .with("$lookup", Bson::doc()
                .with("from", Bson::str("parties"))
                .with("localField", Bson::str("members.item.party_id"))
                .with("foreignField", Bson::str("item._id"))
                .with("as", Bson::str("parties"))));
        push_value(&mut stages, Bson::doc()
            .with("$set", Bson::doc()
                .with("signatures", Bson::doc()
                    .with("$map", Bson::doc()
                        .with("input", Bson::str("$members"))
                        .with("as", Bson::str("member"))
                        .with("in", Bson::doc()
                            .with("member", Bson::str("$$member.item"))
                            .with("party", Bson::doc()
                                .with("$getField", Bson::doc()
                                    .with("input", Bson::doc()
                                        .with("$arrayElemAt", Bson::array()
                                            .item(Bson::doc()
                                                .with("$filter", Bson::doc()
                                                    .with("input", Bson::str("$parties"))
                                                    .with("as", Bson::str("party"))
                                                    .with("cond", Bson::doc()
                                                        .with("$eq", Bson::array()
                                                            .item(Bson::str("$$party.item._id"))
                                                            .item(Bson::str("$$member.item.party_id"))))))
                                            .item(Bson::Int32(0))))
                                    .with("field", Bson::str("item"))))
                            .with("creation_date", Bson::doc()
                                .with("$getField", Bson::doc()
                                    .with("input", Bson::doc()
                                        .with("$arrayElemAt", Bson::array()
                                            .item(Bson::doc()
                                                .with("$filter", Bson::doc()
                                                    .with("input", Bson::str("$signatures"))
                                                    .with("as", Bson::str("signature"))
                                                    .with("cond", Bson::doc()
                                                        .with("$eq", Bson::array()
                                                            .item(Bson::str("$$signature.member_id"))
                                                            .item(Bson::str("$$member.item._id"))))))
                                            .item(Bson::Int32(0))))
                                    .with("field", Bson::str("creation_date"))))
                            .with("withdrawal_date", Bson::doc()
                                .with("$getField", Bson::doc()
                                    .with("input", Bson::doc()
                                        .with("$arrayElemAt", Bson::array()
                                            .item(Bson::doc()
                                                .with("$filter", Bson::doc()
                                                    .with("input", Bson::str("$signatures"))
                                                    .with("as", Bson::str("signature"))
                                                    .with("cond", Bson::doc()
                                                        .with("$eq", Bson::array()
                                                            .item(Bson::str("$$signature.member_id"))
                                                            .item(Bson::str("$$member.item._id"))))))
                                            .item(Bson::Int32(0))))
                                    .with("field", Bson::str("withdrawal_date"))))
                            .with("sponsoring_order", Bson::doc()
                                .with("$getField", Bson::doc()
                                    .with("input", Bson::doc()
                                        .with("$arrayElemAt", Bson::array()
                                            .item(Bson::doc()
                                                .with("$filter", Bson::doc()
                                                    .with("input", Bson::str("$signatures"))
                                                    .with("as", Bson::str("signature"))
                                                    .with("cond", Bson::doc()
                                                        .with("$eq", Bson::array()
                                                            .item(Bson::str("$$signature.member_id"))
                                                            .item(Bson::str("$$member.item._id"))))))
                                            .item(Bson::Int32(0))))
                                    .with("field", Bson::str("sponsoring_order")))))))));
        push_value(&mut stages, Bson::doc()
            .with("$set", Bson::doc()
                .with("signatures_copy", Bson::str("$signatures"))));
        push_value(&mut stages, Bson::doc()
            .with("$project", Bson::doc()
                .with("edms", Bson::Int32(0))
                .with("members", Bson::Int32(0))
                .with("parties", Bson::Int32(0))));
        stages
    }
}

/// Restores the signatures from the copy that was taken when they were collected.
#[derive(Clone, Debug, Default, PartialEq, Eq, Hash)]
pub struct ResetSignatures {}

/// The stages of [`ResetSignatures`].
pub open spec fn reset_signatures_stages() -> Seq<BsonV> {
    Seq::empty()
        .push(BsonV::doc()
            .with("$set"@, BsonV::doc()
                .with("signatures"@, BsonV::String("$signatures_copy"@))))
}

impl ResetSignatures {
    pub fn new() -> (r: Self)
        ensures
            r == (Self {}),
    {
        Self {}
    }
}

impl Query for ResetSignatures {
    open spec fn stages(&self) -> Seq<BsonV> {
        reset_signatures_stages()
    }

    fn build(&self) -> (r: Vec<Bson>) {
        let mut stages: Vec<Bson> = Vec::new();
        push_value(&mut stages, Bson::doc()
            .with("$set", Bson::doc()
                .with("signatures", Bson::str("$signatures_copy"))));
        stages
    }
}

/// Writes the number of signatures under `result.<result>`.
#[derive(Clone, Debug, PartialEq, Eq, Hash)]
pub struct SetSignatureCount {
    pub result: String,
}

/// The stages of [`SetSignatureCount`].
pub open spec fn set_signature_count_stages(result: Seq<char>) -> Seq<BsonV> {
    Seq::empty()
        .push(BsonV::doc()
            .with("$set"@, BsonV::doc()
                .with(result_path(result), BsonV::doc()
                    .with("$size"@, BsonV::String("$signatures"@)))))
}

impl SetSignatureCount {
    pub fn new(result: String) -> (r: Self)
        ensures
            r.result == result,
    {
        Self { result }
    }
}

impl Query for SetSignatureCount {
    open spec fn stages(&self) -> Seq<BsonV> {
        set_signature_count_stages(self.result@)
    }

    fn build(&self) -> (r: Vec<Bson>) {
        let mut stages: Vec<Bson> = Vec::new();
        let key = result_path_of(&self.result);
        push_value(&mut stages, Bson::doc()
            .with("$set", Bson::doc()
                .with(key.as_str(), Bson::doc()
                    .with("$size", Bson::str("$signatures")))));
        stages
    }
}

/// Writes the number of signatures per day under `result.<result>`, by creation or by withdrawal date.
#[derive(Clone, Debug, PartialEq, Eq, Hash)]
pub struct SetSignaturesByDate {
    pub result: String,
    pub creation: bool,
}

/// The stages of [`SetSignaturesByDate`].
pub open spec fn set_signatures_by_date_stages(result: Seq<char>, creation: bool) -> Seq<BsonV> {
    Seq::empty()
        .push(BsonV::doc()
            .with("$unwind"@, BsonV::doc()
                .with("path"@, BsonV::String("$signatures"@))
                .with("preserveNullAndEmptyArrays"@, BsonV::Boolean(true))))
        .push(BsonV::doc()
            .with("$group"@, BsonV::doc()
                .with("_id"@, BsonV::doc()
                    .with("id"@, BsonV::String("$_id"@))
                    .with("date"@, BsonV::doc()
                        .with("$dateToString"@, BsonV::doc()
                            .with("date"@, BsonV::String(if creation { "$signatures.creation_date"@ } else { "$signatures.withdrawal_date"@ }))
                            .with("format"@, BsonV::String("%Y-%m-%d"@)))))
                .with("id"@, BsonV::doc()
                    .with("$first"@, BsonV::String("$_id"@)))
                .with("date"@, BsonV::doc()
                    .with("$first"@, BsonV::doc()
                        .with("$dateToString"@, BsonV::doc()
                            .with("date"@, BsonV::String(if creation { "$signatures.creation_date"@ } else { "$signatures.withdrawal_date"@ }))
                            .with("format"@, BsonV::String("%Y-%m-%d"@)))))
                .with("item"@, BsonV::doc()
                    .with("$first"@, BsonV::String("$item"@)))
                .with("extra"@, BsonV::doc()
                    .with("$first"@, BsonV::String("$extra"@)))
                .with("result"@, BsonV::doc()
                    .with("$first"@, BsonV::String("$result"@)))
                .with("signatures_copy"@, BsonV::doc()
                    .with("$first"@, BsonV::String("$signatures_copy"@)))
                .with("temp"@, BsonV::doc()
                    .with("$sum"@, BsonV::Int32(1i32)))))
        .push(BsonV::doc()
            .with("$group"@, BsonV::doc()
                .with("_id"@, BsonV::String("$id"@))
                .with("item"@, BsonV::doc()
                    .with("$first"@, BsonV::String("$item"@)))
                .with("extra"@, BsonV::doc()
                    .with("$first"@, BsonV::String("$extra"@)))
                .with("result"@, BsonV::doc()
                    .with("$first"@, BsonV::String("$result"@)))
                .with("signatures_copy"@, BsonV::doc()
                    .with("$first"@, BsonV::String("$signatures_copy"@)))
                .with("temp"@, BsonV::doc()
                    .with("$push"@, BsonV::doc()
                        .with("k"@, BsonV::String("$date"@))
                        .with("v"@, BsonV::String("$temp"@))))))
        .push(BsonV::doc()
            .with("$set"@, BsonV::doc()
                .with(result_path(result), BsonV::doc()
                    .with("$arrayToObject"@, BsonV::doc()
                        .with("$sortArray"@, BsonV::doc()
                            .with("input"@, BsonV::doc()
                                .with("$filter"@, BsonV::doc()
                                    .with("input"@, BsonV::String("$temp"@))
                                    .with("as"@, BsonV::String("temp"@))
                                    .with("cond"@, BsonV::doc()
                                        .with("$ne"@, BsonV::arr()
                                            .item(BsonV::String("$$temp.k"@))
                                            .item(BsonV::Null)))))
                            .with("sortBy"@, BsonV::doc()
                                .with("k"@, BsonV::Int32(1i32))))))))
}

impl SetSignaturesByDate {
    pub fn new(result: String, creation: bool) -> (r: Self)
        ensures
            r.result == result,
            r.creation == creation,
    {
        Self { result, creation }
    }
}

impl Query for SetSignaturesByDate {
    open spec fn stages(&self) -> Seq<BsonV> {
        set_signatures_by_date_stages(self.result@, self.creation)
    }

    fn build(&self) -> (r: Vec<Bson>) {
        let mut stages: Vec<Bson> = Vec::new();
        let key = result_path_of(&self.result);
        push_value(&mut stages, Bson::doc()
            .with("$unwind", Bson::doc()
                .with("path", Bson::str("$signatures"))
                .with("preserveNullAndEmptyArrays", Bson::Boolean(true))));
        push_value(&mut stages, Bson::doc()
            .with("$group", Bson::doc()
                .with("_id", Bson::doc()
                    .with("id", Bson::str("$_id"))
                    .with("date", Bson::doc()
                        .with("$dateToString", Bson::doc()
                            .with("date", Bson::str(if self.creation { "$signatures.creation_date" } else { "$signatures.withdrawal_date" }))
                            .with("format", Bson::str("%Y-%m-%d")))))
                .with("id", Bson::doc()
                    .with("$first", Bson::str("$_id")))
                .with("date", Bson::doc()
                    .with("$first", Bson::doc()
                        .with("$dateToString", Bson::doc()
                            .with("date", Bson::str(if self.creation { "$signatures.creation_date" } else { "$signatures.withdrawal_date" }))
                            .with("format", Bson::str("%Y-%m-%d")))))
                .with("item", Bson::doc()
                    .with("$first", Bson::str("$item")))
                .with("extra", Bson::doc()
                    .with("$first", Bson::str("$extra")))
                .with("result", Bson::doc()
                    .with("$first", Bson::str("$result")))
                .with("signatures_copy", Bson::doc()
                    .with("$first", Bson::str("$signatures_copy")))
                .with("temp", Bson::doc()
                    .with("$sum", Bson::Int32(1)))));
        push_value(&mut stages, Bson::doc()
            .with("$group", Bson::doc()
                .with("_id", Bson::str("$id"))
                .with("item", Bson::doc()
                    .with("$first", Bson::str("$item")))
                .with("extra", Bson::doc()
                    .with("$first", Bson::str("$extra")))
                .with("result", Bson::doc()
                    .with("$first", Bson::str("$result")))
                .with("signatures_copy", Bson::doc()
                    .with("$first", Bson::str("$signatures_copy")))
                .with("temp", Bson::doc()
                    .with("$push", Bson::doc()
                        .with("k", Bson::str("$date"))
                        .with("v", Bson::str("$temp"))))));
        push_value(&mut stages, Bson::doc()
            .with("$set", Bson::doc()
                .with(key.as_str(), Bson::doc()
                    .with("$arrayToObject", Bson::doc()
                        .with("$sortArray", Bson::doc()
                            .with("input", Bson::doc()
                                .with("$filter", Bson::doc()
                                    .with("input", Bson::str("$temp"))
                                    .with("as", Bson::str("temp"))
                                    .with("cond", Bson::doc()
                                        .with("$ne", Bson::array()
                                            .item(Bson::str("$$temp.k"))
                                            .item(Bson::Null)))))
                            .with("sortBy", Bson::doc()
                                .with("k", Bson::Int32(1))))))));
        stages
    }
}

/// Writes the number of signatures per party under `result.<result>`, largest first.
#[derive(Clone, Debug, PartialEq, Eq, Hash)]
pub struct SetSignaturesByParty {
    pub result: String,
}

/// The stages of [`SetSignaturesByParty`].
pub open spec fn set_signatures_by_party_stages(result: Seq<char>) -> Seq<BsonV> {
    Seq::empty()
        .push(BsonV::doc()
            .with("$unwind"@, BsonV::doc()
                .with("path"@, BsonV::String("$signatures"@))
                .with("preserveNullAndEmptyArrays"@, BsonV::Boolean(true))))
        .push(BsonV::doc()
            .with("$group"@, BsonV::doc()
                .with("_id"@, BsonV::doc()
                    .with("id"@, BsonV::String("$_id"@))
                    .with("party"@, BsonV::String("$signatures.party.name"@)))
                .with("id"@, BsonV::doc()
                    .with("$first"@, BsonV::String("$_id"@)))
                .with("party"@, BsonV::doc()
                    .with("$first"@, BsonV::String("$signatures.party.name"@)))
                .with("item"@, BsonV::doc()
                    .with("$first"@, BsonV::String("$item"@)))
                .with("extra"@, BsonV::doc()
                    .with("$first"@, BsonV::String("$extra"@)))
                .with("result"@, BsonV::doc()
                    .with("$first"@, BsonV::String("$result"@)))
                .with("signatures_copy"@, BsonV::doc()
                    .with("$first"@, BsonV::String("$signatures_copy"@)))
                .with("temp"@, BsonV::doc()
                    .with("$sum"@, BsonV::Int32(1i32)))))
        .push(BsonV::doc()
            .with("$group"@, BsonV::doc()
                .with("_id"@, BsonV::String("$id"@))
                .with("item"@, BsonV::doc()
                    .with("$first"@, BsonV::String("$item"@)))
                .with("extra"@, BsonV::doc()
                    .with("$first"@, BsonV::String("$extra"@)))
                .with("result"@, BsonV::doc()
                    .with("$first"@, BsonV::String("$result"@)))
                .with("signatures_copy"@, BsonV::doc()
                    .with("$first"@, BsonV::String("$signatures_copy"@)))
                .with("temp"@, BsonV::doc()
                    .with("$push"@, BsonV::doc()
                        .with("k"@, BsonV::String("$party"@))
                        .with("v"@, BsonV::String("$temp"@))))))
        .push(BsonV::doc()
            .with("$set"@, BsonV::doc()
                .with(result_path(result), BsonV::doc()
                    .with("$arrayToObject"@, BsonV::doc()
                        .with("$sortArray"@, BsonV::doc()
                            .with("input"@, BsonV::doc()
                                .with("$filter"@, BsonV::doc()
                                    .with("input"@, BsonV::String("$temp"@))
                                    .with("as"@, BsonV::String("temp"@))
                                    .with("cond"@, BsonV::doc()
                                        .with("$ne"@, BsonV::arr()
                                            .item(BsonV::String("$$temp.k"@))
                                            .item(BsonV::Null)))))
                            .with("sortBy"@, BsonV::doc()
                                .with("v"@, BsonV::Int32(-1i32))))))))
}

impl SetSignaturesByParty {
    pub fn new(result: String) -> (r: Self)
        ensures
            r.result == result,
    {
        Self { result }
    }
}

impl Query for SetSignaturesByParty {
    open spec fn stages(&self) -> Seq<BsonV> {
        set_signatures_by_party_stages(self.result@)
    }

    fn build(&self) -> (r: Vec<Bson>) {
        let mut stages: Vec<Bson> = Vec::new();
        let key = result_path_of(&self.result);
        push_value(&mut stages, Bson::doc()
            .with("$unwind", Bson::doc()
                .with("path", Bson::str("$signatures"))
                .with("preserveNullAndEmptyArrays", Bson::Boolean(true))));
        push_value(&mut stages, Bson::doc()
            .with("$group", Bson::doc()
                .with("_id", Bson::doc()
                    .with("id", Bson::str("$_id"))
                    .with("party", Bson::str("$signatures.party.name")))
                .with("id", Bson::doc()
                    .with("$first", Bson::str("$_id")))
                .with("party", Bson::doc()
                    .with("$first", Bson::str("$signatures.party.name")))
                .with("item", Bson::doc()
                    .with("$first", Bson::str("$item")))
                .with("extra", Bson::doc()
                    .with("$first", Bson::str("$extra")))
                .with("result", Bson::doc()
                    .with("$first", Bson::str("$result")))
                .with("signatures_copy", Bson::doc()
                    .with("$first", Bson::str("$signatures_copy")))
                .with("temp", Bson::doc()
                    .with("$sum", Bson::Int32(1)))));
        push_value(&mut stages, Bson::doc()
            .with("$group", Bson::doc()
                .with("_id", Bson::str("$id"))
                .with("item", Bson::doc()
                    .with("$first", Bson::str("$item")))
                .with("extra", Bson::doc()
                    .with("$first", Bson::str("$extra")))
                .with("result", Bson::doc()
                    .with("$first", Bson::str("$result")))
                .with("signatures_copy", Bson::doc()
                    .with("$first", Bson::str("$signatures_copy")))
                .with("temp", Bson::doc()
                    .with("$push", Bson::doc()
                        .with("k", Bson::str("$party"))
                        .with("v", Bson::str("$temp"))))));
        push_value(&mut stages, Bson::doc()
            .with("$set", Bson::doc()
                .with(key.as_str(), Bson::doc()
                    .with("$arrayToObject", Bson::doc()
                        .with("$sortArray", Bson::doc()
                            .with("input", Bson::doc()
                                .with("$filter", Bson::doc()
                                    .with("input", Bson::str("$temp"))
                                    .with("as", Bson::str("temp"))
                                    .with("cond", Bson::doc()
                                        .with("$ne", Bson::array()
                                            .item(Bson::str("$$temp.k"))
                                            .item(Bson::Null)))))
                            .with("sortBy", Bson::doc()
                                .with("v", Bson::Int32(-1))))))));
        stages
    }
}

/// Writes the number of signatures per year in which the signer's first (or latest) house membership began.
#[derive(Clone, Debug, PartialEq, Eq, Hash)]
pub struct SetSignaturesByMembership {
    pub result: String,
    pub initial: bool,
}

/// The stages of [`SetSignaturesByMembership`].
pub open spec fn set_signatures_by_membership_stages(result: Seq<char>, initial: bool) -> Seq<BsonV> {
    Seq::empty()
        .push(BsonV::doc()
            .with("$unwind"@, BsonV::doc()
                .with("path"@, BsonV::String("$signatures"@))
                .with("preserveNullAndEmptyArrays"@, BsonV::Boolean(true))))
        .push(BsonV::doc()
            .with("$set"@, BsonV::doc()
                .with("temp"@, BsonV::doc()
                    .with("$arrayElemAt"@, BsonV::arr()
                        .item(BsonV::doc()
                            .with("$sortArray"@, BsonV::doc()
                                .with("input"@, BsonV::doc()
                                    .with("$ifNull"@, BsonV::arr()
                                        .item(BsonV::String("$signatures.member.biography.house_memberships"@))
                                        .item(BsonV::arr())))
                                .with("sortBy"@, BsonV::doc()
                                    .with("start_date"@, BsonV::Int32(if initial { 1i32 } else { -1i32 })))))
                        .item(BsonV::Int32(0i32))))))
        .push(BsonV::doc()
            .with("$group"@, BsonV::doc()
                .with("_id"@, BsonV::doc()
                    .with("id"@, BsonV::String("$_id"@))
                    .with("year"@, BsonV::doc()
                        .with("$year"@, BsonV::doc()
                            .with("$getField"@, BsonV::doc()
                                .with("input"@, BsonV::String("$temp"@))
                                .with("field"@, BsonV::String("start_date"@))))))
                .with("id"@, BsonV::doc()
                    .with("$first"@, BsonV::String("$_id"@)))
                .with("item"@, BsonV::doc()
                    .with("$first"@, BsonV::String("$item"@)))
                .with("extra"@, BsonV::doc()
                    .with("$first"@, BsonV::String("$extra"@)))
                .with("result"@, BsonV::doc()
                    .with("$first"@, BsonV::String("$result"@)))
                .with("signatures"@, BsonV::doc()
                    .with("$first"@, BsonV::String("$signatures"@)))
                .with("signatures_copy"@, BsonV::doc()
                    .with("$first"@, BsonV::String("$signatures_copy"@)))
                .with("temp"@, BsonV::doc()
                    .with("$sum"@, BsonV::Int32(1i32)))
                .with("year"@, BsonV::doc()
                    .with("$first"@, BsonV::doc()
                        .with("$toString"@, BsonV::doc()
                            .with("$year"@, BsonV::doc()
                                .with("$getField"@, BsonV::doc()
                                    .with("input"@, BsonV::String("$temp"@))
                                    .with("field"@, BsonV::String("start_date"@)))))))))
        .push(BsonV::doc()
            .with("$group"@, BsonV::doc()
                .with("_id"@, BsonV::String("$id"@))
                .with("item"@, BsonV::doc()
                    .with("$first"@, BsonV::String("$item"@)))
                .with("extra"@, BsonV::doc()
                    .with("$first"@, BsonV::String("$extra"@)))
                .with("result"@, BsonV::doc()
                    .with("$first"@, BsonV::String("$result"@)))
                .with("signatures_copy"@, BsonV::doc()
                    .with("$first"@, BsonV::String("$signatures_copy"@)))
                .with("temp"@, BsonV::doc()
                    .with("$push"@, BsonV::doc()
                        .with("k"@, BsonV::String("$year"@))
                        .with("v"@, BsonV::String("$temp"@))))))
        .push(BsonV::doc()
            .with("$set"@, BsonV::doc()
                .with(result_path(result), BsonV::doc()
                    .with("$arrayToObject"@, BsonV::doc()
                        .with("$sortArray"@, BsonV::doc()
                            .with("input"@, BsonV::doc()
                                .with("$filter"@, BsonV::doc()
                                    .with("input"@, BsonV::String("$temp"@))
                                    .with("as"@, BsonV::String("temp"@))
                                    .with("cond"@, BsonV::doc()
                                        .with("$ne"@, BsonV::arr()
                                            .item(BsonV::String("$$temp.k"@))
                                            .item(BsonV::Null)))))
                            .with("sortBy"@, BsonV::doc()
                                .with("k"@, BsonV::Int32(1i32))))))))
        .push(BsonV::doc()
            .with("$project"@, BsonV::doc()
                .with("temp"@, BsonV::Int32(0i32))))
}

impl SetSignaturesByMembership {
    pub fn new(result: String, initial: bool) -> (r: Self)
        ensures
            r.result == result,
            r.initial == initial,
    {
        Self { result, initial }
    }
}

impl Query for SetSignaturesByMembership {
    open spec fn stages(&self) -> Seq<BsonV> {
        set_signatures_by_membership_stages(self.result@, self.initial)
    }

    fn build(&self) -> (r: Vec<Bson>) {
        let mut stages: Vec<Bson> = Vec::new();
        let key = result_path_of(&self.result);
        push_value(&mut stages, Bson::doc()
            .with("$unwind", Bson::doc()
                .with("path", Bson::str("$signatures"))
                .with("preserveNullAndEmptyArrays", Bson::Boolean(true))));
        push_value(&mut stages, Bson::doc()
            .with("$set", Bson::doc()
                .with("temp", Bson::doc()
                    .with("$arrayElemAt", Bson::array()
                        .item(Bson::doc()
                            .with("$sortArray", Bson::doc()
                                .with("input", Bson::doc()
                                    .with("$ifNull", Bson::array()
                                        .item(Bson::str("$signatures.member.biography.house_memberships"))
                                        .item(Bson::array())))
                                .with("sortBy", Bson::doc()
                                    .with("start_date", Bson::Int32(if self.initial { 1 } else { -1 })))))
                        .item(Bson::Int32(0))))));
        push_value(&mut stages, Bson::doc()
            .with("$group", Bson::doc()
                .with("_id", Bson::doc()
                    .with("id", Bson::str("$_id"))
                    .with("year", Bson::doc()
                        .with("$year", Bson::doc()
                            .with("$getField", Bson::doc()
                                .with("input", Bson::str("$temp"))
                                .with("field", Bson::str("start_date"))))))
                .with("id", Bson::doc()
                    .with("$first", Bson::str("$_id")))
                .with("item", Bson::doc()
                    .with("$first", Bson::str("$item")))
                .with("extra", Bson::doc()
                    .with("$first", Bson::str("$extra")))
                .with("result", Bson::doc()
                    .with("$first", Bson::str("$result")))
                .with("signatures", Bson::doc()
                    .with("$first", Bson::str("$signatures")))
                .with("signatures_copy", Bson::doc()
                    .with("$first", Bson::str("$signatures_copy")))
                .with("temp", Bson::doc()
                    .with("$sum", Bson::Int32(1)))
                .with("year", Bson::doc()
                    .with("$first", Bson::doc()
                        .with("$toString", Bson::doc()
                            .with("$year", Bson::doc()
                                .with("$getField", Bson::doc()
                                    .with("input", Bson::str("$temp"))
                                    .with("field", Bson::str("start_date")))))))));
        push_value(&mut stages, Bson::doc()
            .with("$group", Bson::doc()
                .with("_id", Bson::str("$id"))
                .with("item", Bson::doc()
                    .with("$first", Bson::str("$item")))
                .with("extra", Bson::doc()
                    .with("$first", Bson::str("$extra")))
                .with("result", Bson::doc()
                    .with("$first", Bson::str("$result")))
                .with("signatures_copy", Bson::doc()
                    .with("$first", Bson::str("$signatures_copy")))
                .with("temp", Bson::doc()
                    .with("$push", Bson::doc()
                        .with("k", Bson::str("$year"))
                        .with("v", Bson::str("$temp"))))));
        push_value(&mut stages, Bson::doc()
            .with("$set", Bson::doc()
                .with(key.as_str(), Bson::doc()
                    .with("$arrayToObject", Bson::doc()
                        .with("$sortArray", Bson::doc()
                            .with("input", Bson::doc()
                                .with("$filter", Bson::doc()
                                    .with("input", Bson::str("$temp"))
                                    .with("as", Bson::str("temp"))
                                    .with("cond", Bson::doc()
                                        .with("$ne", Bson::array()
                                            .item(Bson::str("$$temp.k"))
                                            .item(Bson::Null)))))
                            .with("sortBy", Bson::doc()
                                .with("k", Bson::Int32(1))))))));
        push_value(&mut stages, Bson::doc()
            .with("$project", Bson::doc()
                .with("temp", Bson::Int32(0))));
        stages
    }
}

/// Keeps the signatures made from the back bench (or the front bench): without (or with) a government or opposition post held on the day of signing.
#[derive(Clone, Debug, PartialEq, Eq, Hash)]
pub struct FilterSignaturesByBench {
    pub backbench: bool,
    pub government: Option<bool>,
}

/// The stages of [`FilterSignaturesByBench`].
pub open spec fn filter_signatures_by_bench_stages(backbench: bool, government: Option<bool>) -> Seq<BsonV> {
    Seq::empty()
        .push(BsonV::doc()
            .with("$set"@, BsonV::doc()
                .with("signatures"@, BsonV::doc()
                    .with("$filter"@, BsonV::doc()
                        .with("input"@, BsonV::String("$signatures"@))
                        .with("as"@, BsonV::String("signature"@))
                        .with("cond"@, BsonV::doc()
                            .with(if backbench { "$eq"@ } else { "$gt"@ }, BsonV::arr()
                                .item(BsonV::doc()
                                    .with("$size"@, BsonV::doc()
                                        .with("$filter"@, BsonV::doc()
                                            .with("input"@, BsonV::doc()
                                                .with("$setUnion"@, bench_posts_model(government)))
                                            .with("as"@, BsonV::String("post"@))
                                            .with("cond"@, BsonV::doc()
                                                .with("$and"@, BsonV::arr()
                                                    .item(BsonV::doc()
                                                        .with("$gte"@, BsonV::arr()
                                                            .item(BsonV::String("$$signature.creation_date"@))
                                                            .item(BsonV::String("$$post.start_date"@))))
                                                    .item(BsonV::doc()
                                                        .with("$cond"@, BsonV::doc()
                                                            .with("if"@, BsonV::doc()
                                                                .with("$eq"@, BsonV::arr()
                                                                    .item(BsonV::String("$$post.end_date"@))
                                                                    .item(BsonV::Null)))
                                                            .with("then"@, BsonV::Boolean(true))
                                                            .with("else"@, BsonV::doc()
                                                                .with("$lte"@, BsonV::arr()
                                                                    .item(BsonV::String("$$signature.creation_date"@))
                                                                    .item(BsonV::String("$$post.end_date"@)))))))))))
                                .item(BsonV::Int32(0i32))))))))
}

impl FilterSignaturesByBench {
    pub fn new(backbench: bool, government: Option<bool>) -> (r: Self)
        ensures
            r.backbench == backbench,
            r.government == government,
    {
        Self { backbench, government }
    }
}

impl Query for FilterSignaturesByBench {
    open spec fn stages(&self) -> Seq<BsonV> {
        filter_signatures_by_bench_stages(self.backbench, self.government)
    }

    fn build(&self) -> (r: Vec<Bson>) {
        let mut stages: Vec<Bson> = Vec::new();
        push_value(&mut stages, Bson::doc()
            .with("$set", Bson::doc()
                .with("signatures", Bson::doc()
                    .with("$filter", Bson::doc()
                        .with("input", Bson::str("$signatures"))
                        .with("as", Bson::str("signature"))
                        .with("cond", Bson::doc()
                            .with(if self.backbench { "$eq" } else { "$gt" }, Bson::array()
                                .item(Bson::doc()
                                    .with("$size", Bson::doc()
                                        .with("$filter", Bson::doc()
                                            .with("input", Bson::doc()
                                                .with("$setUnion", bench_posts(self.government)))
                                            .with("as", Bson::str("post"))
                                            .with("cond", Bson::doc()
                                                .with("$and", Bson::array()
                                                    .item(Bson::doc()
                                                        .with("$gte", Bson::array()
                                                            .item(Bson::str("$$signature.creation_date"))
                                                            .item(Bson::str("$$post.start_date"))))
                                                    .item(Bson::doc()
                                                        .with("$cond", Bson::doc()
                                                            .with("if", Bson::doc()
                                                                .with("$eq", Bson::array()
                                                                    .item(Bson::str("$$post.end_date"))
                                                                    .item(Bson::Null)))
                                                            .with("then", Bson::Boolean(true))
                                                            .with("else", Bson::doc()
                                                                .with("$lte", Bson::array()
                                                                    .item(Bson::str("$$signature.creation_date"))
                                                                    .item(Bson::str("$$post.end_date")))))))))))
                                .item(Bson::Int32(0))))))));
        stages
    }
}

/// Keeps the signatures of members whose gender is one of `genders`.
#[derive(Clone, Debug, PartialEq, Eq, Hash)]
pub struct FilterSignaturesByGender {
    pub genders: Vec<String>,
}

/// The stages of [`FilterSignaturesByGender`].
pub open spec fn filter_signatures_by_gender_stages(genders: Seq<Seq<char>>) -> Seq<BsonV> {
    Seq::empty()
        .push(BsonV::doc()
            .with("$set"@, BsonV::doc()
                .with("signatures"@, BsonV::doc()
                    .with("$filter"@, BsonV::doc()
                        .with("input"@, BsonV::String("$signatures"@))
                        .with("as"@, BsonV::String("signature"@))
                        .with("cond"@, BsonV::doc()
                            .with("$in"@, BsonV::arr()
                                .item(BsonV::String("$$signature.member.gender"@))
                                .item(BsonV::Array(names_model(genders)))))))))
}

impl FilterSignaturesByGender {
    pub fn new(genders: Vec<String>) -> (r: Self)
        ensures
            r.genders == genders,
    {
        Self { genders }
    }
}

impl Query for FilterSignaturesByGender {
    open spec fn stages(&self) -> Seq<BsonV> {
        filter_signatures_by_gender_stages(string_views(self.genders@))
    }

    fn build(&self) -> (r: Vec<Bson>) {
        let mut stages: Vec<Bson> = Vec::new();
        push_value(&mut stages, Bson::doc()
            .with("$set", Bson::doc()
                .with("signatures", Bson::doc()
                    .with("$filter", Bson::doc()
                        .with("input", Bson::str("$signatures"))
                        .with("as", Bson::str("signature"))
                        .with("cond", Bson::doc()
                            .with("$in", Bson::array()
                                .item(Bson::str("$$signature.member.gender"))
                                .item(Bson::string_array(&self.genders))))))));
        stages
    }
}

/// Keeps the motions whose text reads like an objection to a statutory instrument.
#[derive(Clone, Debug, Default, PartialEq, Eq, Hash)]
pub struct FilterByKeywords {}

/// The stages of [`FilterByKeywords`].
pub open spec fn filter_by_keywords_stages() -> Seq<BsonV> {
    Seq::empty()
        .push(BsonV::doc()
            .with("$match"@, BsonV::doc()
                .with("item.motion_text"@, BsonV::doc()
                    .with("$regex"@, BsonV::String("be annulled|be revoked|be not made|be not submitted|be withdrawn|be disapproved|does not approve|[ .,;:/\\(]s[ \\.,;:/]{0,3}[ir][ \\.,;:/\\)][ \\.,;:/n0-9\\)][ \\.,;:/n0-9\\)]{2}|statutory instrument|secondary legislation"@))
                    .with("$options"@, BsonV::String("i"@)))))
}

impl FilterByKeywords {
    pub fn new() -> (r: Self)
        ensures
            r == (Self {}),
    {
        Self {}
    }
}

impl Query for FilterByKeywords {
    open spec fn stages(&self) -> Seq<BsonV> {
        filter_by_keywords_stages()
    }

    fn build(&self) -> (r: Vec<Bson>) {
        let mut stages: Vec<Bson> = Vec::new();
        push_value(&mut stages, Bson::doc()
            .with("$match", Bson::doc()
                .with("item.motion_text", Bson::doc()
                    .with("$regex", Bson::str("be annulled|be revoked|be not made|be not submitted|be withdrawn|be disapproved|does not approve|[ .,;:/\\(]s[ \\.,;:/]{0,3}[ir][ \\.,;:/\\)][ \\.,;:/n0-9\\)][ \\.,;:/n0-9\\)]{2}|statutory instrument|secondary legislation"))
                    .with("$options", Bson::str("i")))));
        stages
    }
}

/// Keeps the motions of one of the given kinds.
#[derive(Clone, Debug, PartialEq, Eq, Hash)]
pub struct FilterByMotionKind {
    pub motion_kinds: Vec<MotionKind>,
}

/// The stages of [`FilterByMotionKind`].
pub open spec fn filter_by_motion_kind_stages(motion_kinds: Seq<MotionKind>) -> Seq<BsonV> {
    Seq::empty()
        .push(BsonV::doc()
            .with("$match"@, BsonV::doc()
                .with("extra.motion_kind"@, BsonV::doc()
                    .with("$in"@, BsonV::Array(motion_kinds_view(motion_kinds))))))
}

impl FilterByMotionKind {
    pub fn new(motion_kinds: Vec<MotionKind>) -> (r: Self)
        ensures
            r.motion_kinds == motion_kinds,
    {
        Self { motion_kinds }
    }
}

impl Query for FilterByMotionKind {
    open spec fn stages(&self) -> Seq<BsonV> {
        filter_by_motion_kind_stages(self.motion_kinds@)
    }

    fn build(&self) -> (r: Vec<Bson>) {
        let mut stages: Vec<Bson> = Vec::new();
        push_value(&mut stages, Bson::doc()
            .with("$match", Bson::doc()
                .with("extra.motion_kind", Bson::doc()
                    .with("$in", motion_kind_codes(&self.motion_kinds)))));
        stages
    }
}

/// Keeps the motions tabled between the given dates (milliseconds since the Unix epoch), each bound inclusive and optional.
#[derive(Clone, Debug, PartialEq, Eq, Hash)]
pub struct FilterByDate {
    pub start_date: Option<i64>,
    pub end_date: Option<i64>,
}

/// The stages of [`FilterByDate`].
pub open spec fn filter_by_date_stages(start_date: Option<i64>, end_date: Option<i64>) -> Seq<BsonV> {
    Seq::empty()
        .push(BsonV::doc()
            .with("$match"@, BsonV::doc()
                .with("item.date_tabled"@, date_range_model(start_date, end_date))))
}

/// Milliseconds since the Unix epoch at the start of 1 January of `year`
/// (UTC), in the proleptic Gregorian calendar.
pub open spec fn year_start_ms(year: i32) -> int {
    let y = year as int;
    (365 * (y - 1970) + (y - 1969) / 4 - (y - 1901) / 100 + (y - 1601) / 400) * 86400000
}

/// `bson::DateTime::builder` with a year, month 1 and day 1, then `build`.
/// Claims that a date it builds is the start of that year, as milliseconds
/// since the Unix epoch, and that it builds one for every year from -9999 to
/// 9999 (the range of the `time` crate without its large dates).
#[verifier::external_body]
fn year_start_millis(year: i32) -> (r: Option<i64>)
    ensures
        r matches Some(ms) ==> ms == year_start_ms(year),
        -9999 <= year <= 9999 ==> r is Some,
{
    bson::DateTime::builder().year(year).month(1).day(1).build().ok().map(|dt| dt.timestamp_millis())
}

impl FilterByDate {
    pub fn new(start_date: Option<i64>, end_date: Option<i64>) -> (r: Self)
        ensures
            r.start_date == start_date,
            r.end_date == end_date,
    {
        Self { start_date, end_date }
    }

    /// From the start of one year to the start of another.
    pub fn new_by_year(start_year: i32, end_year: i32) -> (r: Self)
        requires
            -9999 <= start_year <= 9999,
            -9999 <= end_year <= 9999,
        ensures
            r.start_date == Some(year_start_ms(start_year) as i64),
            r.end_date == Some(year_start_ms(end_year) as i64),
    {
        let start = match year_start_millis(start_year) {
            Some(ms) => ms,
            None => 0,
        };
        let end = match year_start_millis(end_year) {
            Some(ms) => ms,
            None => 0,
        };
        Self { start_date: Some(start), end_date: Some(end) }
    }
}

impl Query for FilterByDate {
    open spec fn stages(&self) -> Seq<BsonV> {
        filter_by_date_stages(self.start_date, self.end_date)
    }

    fn build(&self) -> (r: Vec<Bson>) {
        let mut stages: Vec<Bson> = Vec::new();
        push_value(&mut stages, Bson::doc()
            .with("$match", Bson::doc()
                .with("item.date_tabled", date_range(self.start_date, self.end_date))));
        stages
    }
}

/// Keeps the signatures of members of one of the named parties.
#[derive(Clone, Debug, PartialEq, Eq, Hash)]
pub struct FilterSignaturesByParty {
    pub parties: Vec<String>,
}

/// The stages of [`FilterSignaturesByParty`].
pub open spec fn filter_signatures_by_party_stages(parties: Seq<Seq<char>>) -> Seq<BsonV> {
    Seq::empty()
        .push(BsonV::doc()
            .with("$set"@, BsonV::doc()
                .with("signatures"@, BsonV::doc()
                    .with("$filter"@, BsonV::doc()
                        .with("input"@, BsonV::String("$signatures"@))
                        .with("as"@, BsonV::String("signature"@))
                        .with("cond"@, BsonV::doc()
                            .with("$in"@, BsonV::arr()
                                .item(BsonV::String("$$signature.party.name"@))
                                .item(BsonV::Array(names_model(parties)))))))))
}

impl FilterSignaturesByParty {
    pub fn new(parties: Vec<String>) -> (r: Self)
        ensures
            r.parties == parties,
    {
        Self { parties }
    }
}

impl Query for FilterSignaturesByParty {
    open spec fn stages(&self) -> Seq<BsonV> {
        filter_signatures_by_party_stages(string_views(self.parties@))
    }

    fn build(&self) -> (r: Vec<Bson>) {
        let mut stages: Vec<Bson> = Vec::new();
        push_value(&mut stages, Bson::doc()
            .with("$set", Bson::doc()
                .with("signatures", Bson::doc()
                    .with("$filter", Bson::doc()
                        .with("input", Bson::str("$signatures"))
                        .with("as", Bson::str("signature"))
                        .with("cond", Bson::doc()
                            .with("$in", Bson::array()
                                .item(Bson::str("$$signature.party.name"))
                                .item(Bson::string_array(&self.parties))))))));
        stages
    }
}

/// Keeps the supporting (not withdrawn) signatures, or the withdrawn ones.
#[derive(Clone, Debug, PartialEq, Eq, Hash)]
pub struct FilterSignaturesBySupporting {
    pub supporting: bool,
}

/// The stages of [`FilterSignaturesBySupporting`].
pub open spec fn filter_signatures_by_supporting_stages(supporting: bool) -> Seq<BsonV> {
    Seq::empty()
        .push(BsonV::doc()
            .with("$set"@, BsonV::doc()
                .with("signatures"@, BsonV::doc()
                    .with("$filter"@, BsonV::doc()
                        .with("input"@, BsonV::doc()
                            .with("$ifNull"@, BsonV::arr()
                                .item(BsonV::String("$signatures"@))
                                .item(BsonV::arr())))
                        .with("as"@, BsonV::String("signature"@))
                        .with("cond"@, BsonV::doc()
                            .with(if supporting { "$eq"@ } else { "$ne"@ }, BsonV::arr()
                                .item(BsonV::String("$$signature.withdrawal_date"@))
                                .item(BsonV::Null)))))))
}

impl FilterSignaturesBySupporting {
    pub fn new(supporting: bool) -> (r: Self)
        ensures
            r.supporting == supporting,
    {
        Self { supporting }
    }
}

impl Query for FilterSignaturesBySupporting {
    open spec fn stages(&self) -> Seq<BsonV> {
        filter_signatures_by_supporting_stages(self.supporting)
    }

    fn build(&self) -> (r: Vec<Bson>) {
        let mut stages: Vec<Bson> = Vec::new();
        push_value(&mut stages, Bson::doc()
            .with("$set", Bson::doc()
                .with("signatures", Bson::doc()
                    .with("$filter", Bson::doc()
                        .with("input", Bson::doc()
                            .with("$ifNull", Bson::array()
                                .item(Bson::str("$signatures"))
                                .item(Bson::array())))
                        .with("as", Bson::str("signature"))
                        .with("cond", Bson::doc()
                            .with(if self.supporting { "$eq" } else { "$ne" }, Bson::array()
                                .item(Bson::str("$$signature.withdrawal_date"))
                                .item(Bson::Null)))))));
        stages
    }
}

/// Orders the motions by their number of signatures.
#[derive(Clone, Debug, PartialEq, Eq, Hash)]
pub struct SortBySignatureCount {
    pub ascending: bool,
}

/// The stages of [`SortBySignatureCount`].
pub open spec fn sort_by_signature_count_stages(ascending: bool) -> Seq<BsonV> {
    Seq::empty()
        .push(BsonV::doc()
            .with("$set"@, BsonV::doc()
                .with("temp"@, BsonV::doc()
                    .with("$size"@, BsonV::String("$signatures"@)))))
        .push(BsonV::doc()
            .with("$sort"@, BsonV::doc()
                .with("temp"@, BsonV::Int32(if ascending { 1i32 } else { -1i32 }))))
}

impl SortBySignatureCount {
    pub fn new(ascending: bool) -> (r: Self)
        ensures
            r.ascending == ascending,
    {
        Self { ascending }
    }
}

impl Query for SortBySignatureCount {
    open spec fn stages(&self) -> Seq<BsonV> {
        sort_by_signature_count_stages(self.ascending)
    }

    fn build(&self) -> (r: Vec<Bson>) {
        let mut stages: Vec<Bson> = Vec::new();
        push_value(&mut stages, Bson::doc()
            .with("$set", Bson::doc()
                .with("temp", Bson::doc()
                    .with("$size", Bson::str("$signatures")))));
        push_value(&mut stages, Bson::doc()
            .with("$sort", Bson::doc()
                .with("temp", Bson::Int32(if self.ascending { 1 } else { -1 }))));
        stages
    }
}

/// Orders the motions by the date on which they were tabled.
#[derive(Clone, Debug, PartialEq, Eq, Hash)]
pub struct SortByDateTabled {
    pub ascending: bool,
}

/// The stages of [`SortByDateTabled`].
pub open spec fn sort_by_date_tabled_stages(ascending: bool) -> Seq<BsonV> {
    Seq::empty()
        .push(BsonV::doc()
            .with("$sort"@, BsonV::doc()
                .with("item.date_tabled"@, BsonV::Int32(if ascending { 1i32 } else { -1i32 }))))
}

impl SortByDateTabled {
    pub fn new(ascending: bool) -> (r: Self)
        ensures
            r.ascending == ascending,
    {
        Self { ascending }
    }
}

impl Query for SortByDateTabled {
    open spec fn stages(&self) -> Seq<BsonV> {
        sort_by_date_tabled_stages(self.ascending)
    }

    fn build(&self) -> (r: Vec<Bson>) {
        let mut stages: Vec<Bson> = Vec::new();
        push_value(&mut stages, Bson::doc()
            .with("$sort", Bson::doc()
                .with("item.date_tabled", Bson::Int32(if self.ascending { 1 } else { -1 }))));
        stages
    }
}
/// Keeps the motions whose primary sponsor signed from the back bench (or
/// the front bench), after keeping only such signatures.
#[derive(Clone, Debug, PartialEq, Eq, Hash)]
pub struct FilterByPrimarySponsorBench {
    pub backbench: bool,
    pub government: Option<bool>,
}

/// The stages of [`FilterByPrimarySponsorBench`].
pub open spec fn filter_by_primary_sponsor_bench_stages(
    backbench: bool,
    government: Option<bool>,
) -> Seq<BsonV> {
    filter_signatures_by_bench_stages(backbench, government).push(
        BsonV::doc().with(
            "$match"@,
            BsonV::doc().with(
                "signatures.sponsoring_order"@,
                BsonV::doc().with("$eq"@, BsonV::Int32(1i32)),
            ),
        ),
    )
}

impl FilterByPrimarySponsorBench {
    pub fn new(backbench: bool, government: Option<bool>) -> (r: Self)
        ensures
            r.backbench == backbench,
            r.government == government,
    {
        Self { backbench, government }
    }
}

impl Query for FilterByPrimarySponsorBench {
    open spec fn stages(&self) -> Seq<BsonV> {
        filter_by_primary_sponsor_bench_stages(self.backbench, self.government)
    }

    fn build(&self) -> (r: Vec<Bson>) {
        let mut stages = FilterSignaturesByBench::new(self.backbench, self.government).build();
        push_value(
            &mut stages,
            Bson::doc().with(
                "$match",
                Bson::doc().with(
                    "signatures.sponsoring_order",
                    Bson::doc().with("$eq", Bson::Int32(1)),
                ),
            ),
        );
        stages
    }
}

} // verus!

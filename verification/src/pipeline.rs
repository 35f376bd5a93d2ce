use vstd::prelude::*;

use crate::bson_model::{entry_value, BsonV};
use crate::report::main_query_stages;
use crate::query::{
    bench_posts_model, collect_signatures_stages, filter_signatures_by_bench_stages,
    filter_signatures_by_supporting_stages, set_signatures_by_date_stages,
    sort_by_signature_count_stages, Signature,
};

verus! {

/// The direction in which a `$sort` stage orders by a key.
pub enum SortOrder {
    Ascending,
    Descending,
}

/// The entry under `key` of a document, if it is one and has the key.
pub open spec fn field(d: BsonV, key: Seq<char>) -> Option<BsonV> {
    match d {
        BsonV::Document(es) => entry_value(es, key),
        _ => None,
    }
}

/// The value an operand stands for: the value of a field path or variable
/// that `env` gives one for (MongoDB writes them `$path` and `$$name.path`),
/// else the operand itself, a literal.
pub open spec fn operand_value(a: BsonV, env: Map<Seq<char>, BsonV>) -> BsonV {
    match a {
        BsonV::String(s) => if env.contains_key(s) {
            env[s]
        } else {
            a
        },
        _ => a,
    }
}

/// What a comparison operator gives for two values: `$eq` equal, `$ne`
/// not equal, `$gt` greater (of two integers); `None` for anything else.
pub open spec fn compare(op: Seq<char>, l: BsonV, r: BsonV) -> Option<bool> {
    if op == "$eq"@ {
        Some(l == r)
    } else if op == "$ne"@ {
        Some(l != r)
    } else if op == "$gt"@ {
        match (l, r) {
            (BsonV::Int32(a), BsonV::Int32(b)) => Some(a > b),
            _ => None,
        }
    } else {
        None
    }
}

/// What a comparison `{op: [left, right]}` gives when its left operand is
/// worth `left` and the right one is read in `env`.
pub open spec fn comparison_with_left(cond: BsonV, left: BsonV, env: Map<Seq<char>, BsonV>) -> Option<bool> {
    match cond {
        BsonV::Document(es) => if es.len() == 1 {
            match es[0].1 {
                BsonV::Array(args) => if args.len() == 2 {
                    compare(es[0].0, left, operand_value(args[1], env))
                } else {
                    None
                },
                _ => None,
            }
        } else {
            None
        },
        _ => None,
    }
}

/// The left operand of a comparison `{op: [left, right]}`.
pub open spec fn comparison_left(cond: BsonV) -> Option<BsonV> {
    match cond {
        BsonV::Document(es) => if es.len() == 1 {
            match es[0].1 {
                BsonV::Array(args) => if args.len() == 2 {
                    Some(args[0])
                } else {
                    None
                },
                _ => None,
            }
        } else {
            None
        },
        _ => None,
    }
}

/// What a comparison `{op: [left, right]}` gives with both operands read
/// in `env`.
pub open spec fn comparison(cond: BsonV, env: Map<Seq<char>, BsonV>) -> Option<bool> {
    match comparison_left(cond) {
        Some(l) => comparison_with_left(cond, operand_value(l, env), env),
        None => None,
    }
}

/// The expression a `$set` stage gives a field.
pub open spec fn set_field(stage: BsonV, name: Seq<char>) -> Option<BsonV> {
    match field(stage, "$set"@) {
        Some(fields) => field(fields, name),
        None => None,
    }
}

/// The number that `{$size: path}` gives when `env` reads the path as an
/// array.
pub open spec fn size_value(e: BsonV, env: Map<Seq<char>, BsonV>) -> Option<int> {
    match field(e, "$size"@) {
        Some(p) => match operand_value(p, env) {
            BsonV::Array(xs) => Some(xs.len() as int),
            _ => None,
        },
        None => None,
    }
}

/// The direction in which a `$sort` stage orders by `key`: 1 ascending,
/// -1 descending.
pub open spec fn sort_order(stage: BsonV, key: Seq<char>) -> Option<SortOrder> {
    match field(stage, "$sort"@) {
        Some(keys) => match field(keys, key) {
            Some(BsonV::Int32(d)) => if d == 1 {
                Some(SortOrder::Ascending)
            } else if d == -1 {
                Some(SortOrder::Descending)
            } else {
                None
            },
            _ => None,
        },
        None => None,
    }
}

/// A motion's signatures, as the stages read them under `$signatures`.
pub open spec fn signatures_env(signatures: Seq<BsonV>) -> Map<Seq<char>, BsonV> {
    Map::empty().insert("$signatures"@, BsonV::Array(signatures))
}

/// An optional date as stored: the date, or null.
pub open spec fn date_or_null(d: Option<i64>) -> BsonV {
    match d {
        Some(ms) => BsonV::DateTime(ms),
        None => BsonV::Null,
    }
}

/// A signature's dates as an expression over `$$signature` reads them.
pub open spec fn signature_env(s: Signature) -> Map<Seq<char>, BsonV> {
    Map::empty().insert("$$signature.creation_date"@, BsonV::DateTime(s.creation_date)).insert(
        "$$signature.withdrawal_date"@,
        date_or_null(s.withdrawal_date),
    )
}

/// The condition of a stage that sets `signatures` to `{$filter: {input,
/// as: "signature", cond}}`.
pub open spec fn signatures_filter_cond(stage: BsonV) -> Option<BsonV> {
    match set_field(stage, "signatures"@) {
        Some(e) => match field(e, "$filter"@) {
            Some(f) => if field(f, "as"@) == Some(BsonV::String("signature"@)) {
                field(f, "cond"@)
            } else {
                None
            },
            None => None,
        },
        None => None,
    }
}

/// Whether a stage that sets `signatures` to `{$filter: {input, as:
/// "signature", cond}}` keeps the signature `s`.
pub open spec fn signatures_filter_keeps(stage: BsonV, s: Signature) -> Option<bool> {
    match signatures_filter_cond(stage) {
        Some(cond) => comparison(cond, signature_env(s)),
        None => None,
    }
}

/// Ordering motions by their number of signatures: the first stage sets
/// `temp` to the number of a motion's signatures, the second orders by
/// `temp`, the fewest first when `ascending`, the most first otherwise.
pub proof fn law_sort_by_signature_count(ascending: bool, signatures: Seq<BsonV>)
    ensures
        sort_by_signature_count_stages(ascending).len() == 2,
        set_field(sort_by_signature_count_stages(ascending)[0], "temp"@) matches Some(e)
            && size_value(e, signatures_env(signatures)) == Some(signatures.len() as int),
        sort_order(sort_by_signature_count_stages(ascending)[1], "temp"@) == Some(
            if ascending {
                SortOrder::Ascending
            } else {
                SortOrder::Descending
            },
        ),
{
    let st = sort_by_signature_count_stages(ascending);
    let d = if ascending { 1i32 } else { -1i32 };
    assert(st[1] == BsonV::doc().with("$sort"@, BsonV::doc().with("temp"@, BsonV::Int32(d))));
}

/// Keeping the supporting signatures keeps exactly those without a
/// withdrawal date, and keeping the withdrawn ones exactly those with one.
pub proof fn law_supporting_filter(supporting: bool, s: Signature)
    ensures
        filter_signatures_by_supporting_stages(supporting).len() == 1,
        signatures_filter_keeps(filter_signatures_by_supporting_stages(supporting)[0], s) == Some(
            supporting == (s.withdrawal_date is None),
        ),
{
    reveal_strlit("$eq");
    reveal_strlit("$ne");
    reveal_strlit("input");
    reveal_strlit("as");
    reveal_strlit("cond");
    reveal_strlit("$$signature.creation_date");
    reveal_strlit("$$signature.withdrawal_date");
    let op = if supporting { "$eq"@ } else { "$ne"@ };
    let cond = BsonV::doc().with(
        op,
        BsonV::arr().item(BsonV::String("$$signature.withdrawal_date"@)).item(BsonV::Null),
    );
    let input = BsonV::doc().with(
        "$ifNull"@,
        BsonV::arr().item(BsonV::String("$signatures"@)).item(BsonV::arr()),
    );
    let f = BsonV::doc().with("input"@, input).with("as"@, BsonV::String("signature"@)).with(
        "cond"@,
        cond,
    );
    let e = BsonV::doc().with("$filter"@, f);
    let stage = BsonV::doc().with("$set"@, BsonV::doc().with("signatures"@, e));
    assert(filter_signatures_by_supporting_stages(supporting)[0] == stage);
    assert(set_field(stage, "signatures"@) == Some(e));
    assert(field(e, "$filter"@) == Some(f));
    let fs = f->Document_0;
    assert(fs[0].0 == "input"@);
    assert(fs[1].0 == "as"@);
    assert(("input"@).len() == 5);
    assert(("as"@).len() == 2);
    assert(("cond"@).len() == 4);
    assert(fs[0].0 != "as"@);
    assert(entry_value(fs.drop_first(), "as"@) == Some(BsonV::String("signature"@)));
    assert(field(f, "as"@) == Some(BsonV::String("signature"@)));
    assert(fs[1].0 != "cond"@);
    assert(entry_value(fs.drop_first().drop_first(), "cond"@) == Some(cond));
    assert(entry_value(fs.drop_first(), "cond"@) == Some(cond));
    assert(field(f, "cond"@) == Some(cond));
    let env = signature_env(s);
    assert(env.contains_key("$$signature.withdrawal_date"@));
    assert(env["$$signature.withdrawal_date"@] == date_or_null(s.withdrawal_date));
    assert(comparison_left(cond) == Some(BsonV::String("$$signature.withdrawal_date"@)));
    assert(operand_value(BsonV::Null, env) == BsonV::Null);
    assert(comparison(cond, env) == compare(op, date_or_null(s.withdrawal_date), BsonV::Null));
    assert(("$ne"@)[1] != ("$eq"@)[1]);
    assert("$ne"@ != "$eq"@);
    assert((date_or_null(s.withdrawal_date) == BsonV::Null) == (s.withdrawal_date is None));
}

/// Keeping the backbench signatures keeps exactly those whose signer held
/// no post when signing, and keeping the frontbench ones exactly those
/// whose signer held at least one: the condition compares the number of
/// posts held, a `$size`, with 0, and both count the same posts.
pub proof fn law_bench_filter(backbench: bool, government: Option<bool>, posts_held: i32)
    requires
        posts_held >= 0,
    ensures
        filter_signatures_by_bench_stages(backbench, government).len() == 1,
        signatures_filter_cond(filter_signatures_by_bench_stages(backbench, government)[0]) matches Some(c)
            && comparison_left(c) matches Some(l) && field(l, "$size"@) is Some
            && comparison_left(c) == comparison_left(
            signatures_filter_cond(filter_signatures_by_bench_stages(!backbench, government)[0])->0,
        ) && comparison_with_left(c, BsonV::Int32(posts_held), Map::empty()) == Some(
            if backbench {
                posts_held == 0
            } else {
                posts_held > 0
            },
        ),
{
    reveal_strlit("$eq");
    reveal_strlit("$ne");
    reveal_strlit("$gt");
    reveal_strlit("input");
    reveal_strlit("as");
    reveal_strlit("cond");
    assert(("input"@).len() == 5);
    assert(("as"@).len() == 2);
    assert(("cond"@).len() == 4);
    assert(("$gt"@)[1] != ("$eq"@)[1]);
    assert(("$gt"@)[1] != ("$ne"@)[1]);
    assert("$gt"@ != "$eq"@);
    assert("$gt"@ != "$ne"@);
    lemma_bench_cond(backbench, government);
    lemma_bench_cond(!backbench, government);
    let size = bench_size(government);
    assert(operand_value(BsonV::Int32(0i32), Map::empty()) == BsonV::Int32(0i32));
}

/// The number of posts a signer held when signing, as the bench filters
/// count it.
pub open spec fn bench_size(government: Option<bool>) -> BsonV {
    BsonV::doc().with("$size"@, BsonV::doc()
        .with("$filter"@, BsonV::doc()
            .with("input"@, BsonV::doc()
                .with("$setUnion"@, bench_posts_model(government)))
            .with("as"@, BsonV::String("post"@))
            .with("cond"@, BsonV::doc()
                .with("$and"@, BsonV::arr()
                    .item(BsonV::doc()
                        .with("$gte"@, BsonV::arr()
                            .item(BsonV::String("$$signature.creation_date"@))
                            .item(BsonV::String("$$post.start_date"@))))
                    .item(BsonV::doc()
                        .with("$cond"@, BsonV::doc()
                            .with("if"@, BsonV::doc()
                                .with("$eq"@, BsonV::arr()
                                    .item(BsonV::String("$$post.end_date"@))
                                    .item(BsonV::Null)))
                            .with("then"@, BsonV::Boolean(true))
                            .with("else"@, BsonV::doc()
                                .with("$lte"@, BsonV::arr()
                                    .item(BsonV::String("$$signature.creation_date"@))
                                    .item(BsonV::String("$$post.end_date"@))))))))))
}

proof fn lemma_bench_cond(backbench: bool, government: Option<bool>)
    ensures
        signatures_filter_cond(filter_signatures_by_bench_stages(backbench, government)[0]) == Some(
            BsonV::doc().with(
                if backbench {
                    "$eq"@
                } else {
                    "$gt"@
                },
                BsonV::arr().item(bench_size(government)).item(BsonV::Int32(0i32)),
            ),
        ),
{
    reveal_strlit("input");
    reveal_strlit("as");
    reveal_strlit("cond");
    assert(("input"@).len() == 5);
    assert(("as"@).len() == 2);
    assert(("cond"@).len() == 4);
    let op = if backbench { "$eq"@ } else { "$gt"@ };
    let cond = BsonV::doc().with(op, BsonV::arr().item(bench_size(government)).item(BsonV::Int32(0i32)));
    let f = BsonV::doc().with("input"@, BsonV::String("$signatures"@)).with(
        "as"@,
        BsonV::String("signature"@),
    ).with("cond"@, cond);
    let e = BsonV::doc().with("$filter"@, f);
    let stage = BsonV::doc().with("$set"@, BsonV::doc().with("signatures"@, e));
    assert(filter_signatures_by_bench_stages(backbench, government)[0] == stage);
    let fs = f->Document_0;
    assert(fs[0].0 == "input"@);
    assert(fs[1].0 == "as"@);
    assert(entry_value(fs.drop_first(), "as"@) == Some(BsonV::String("signature"@)));
    assert(field(f, "as"@) == Some(BsonV::String("signature"@)));
    assert(entry_value(fs.drop_first().drop_first(), "cond"@) == Some(cond));
    assert(entry_value(fs.drop_first(), "cond"@) == Some(cond));
    assert(field(f, "cond"@) == Some(cond));
}

/// A signature after `$unwind` of `signatures`, as `$signatures.<field>`
/// reads it.
pub open spec fn unwound_signature_env(s: Signature) -> Map<Seq<char>, BsonV> {
    Map::empty().insert("$signatures.creation_date"@, BsonV::DateTime(s.creation_date)).insert(
        "$signatures.withdrawal_date"@,
        date_or_null(s.withdrawal_date),
    )
}

/// The date that `{$dateToString: {date, format}}` writes, read in `env`.
pub open spec fn date_written(e: BsonV, env: Map<Seq<char>, BsonV>) -> Option<BsonV> {
    match field(e, "$dateToString"@) {
        Some(d) => match field(d, "date"@) {
            Some(p) => Some(operand_value(p, env)),
            None => None,
        },
        None => None,
    }
}

/// The date whose day a `$group` stage groups by: the one written under
/// `_id.date`.
pub open spec fn group_day(stage: BsonV, env: Map<Seq<char>, BsonV>) -> Option<BsonV> {
    match field(stage, "$group"@) {
        Some(g) => match field(g, "_id"@) {
            Some(id) => match field(id, "date"@) {
                Some(e) => date_written(e, env),
                None => None,
            },
            None => None,
        },
        None => None,
    }
}

/// The date whose day a `$group` stage keeps for each group under `date`,
/// with `$first`.
pub open spec fn group_first_day(stage: BsonV, env: Map<Seq<char>, BsonV>) -> Option<BsonV> {
    match field(stage, "$group"@) {
        Some(g) => match field(g, "date"@) {
            Some(acc) => match field(acc, "$first"@) {
                Some(e) => date_written(e, env),
                None => None,
            },
            None => None,
        },
        None => None,
    }
}

/// Counting signatures by day: the signatures are unwound, then grouped by
/// the day of their creation date when `creation`, and of their withdrawal
/// date (null for one not withdrawn) otherwise.
pub proof fn law_signatures_by_date(result: Seq<char>, creation: bool, s: Signature)
    ensures
        set_signatures_by_date_stages(result, creation).len() == 4,
        field(set_signatures_by_date_stages(result, creation)[0], "$unwind"@) matches Some(u)
            && field(u, "path"@) == Some(BsonV::String("$signatures"@)),
        group_day(set_signatures_by_date_stages(result, creation)[1], unwound_signature_env(s)) == Some(
            if creation {
                BsonV::DateTime(s.creation_date)
            } else {
                date_or_null(s.withdrawal_date)
            },
        ),
        group_first_day(set_signatures_by_date_stages(result, creation)[1], unwound_signature_env(s))
            == Some(
            if creation {
                BsonV::DateTime(s.creation_date)
            } else {
                date_or_null(s.withdrawal_date)
            },
        ),
{
    reveal_strlit("_id");
    reveal_strlit("id");
    reveal_strlit("date");
    reveal_strlit("$signatures.creation_date");
    reveal_strlit("$signatures.withdrawal_date");
    assert(("_id"@).len() == 3);
    assert(("id"@).len() == 2);
    assert(("date"@).len() == 4);
    let path = if creation { "$signatures.creation_date"@ } else { "$signatures.withdrawal_date"@ };
    let written = BsonV::doc().with(
        "$dateToString"@,
        BsonV::doc().with("date"@, BsonV::String(path)).with("format"@, BsonV::String("%Y-%m-%d"@)),
    );
    let key = BsonV::doc().with("id"@, BsonV::String("$_id"@)).with("date"@, written);
    let st = set_signatures_by_date_stages(result, creation);
    let g = field(st[1], "$group"@)->0;
    let gs = g->Document_0;
    assert(gs[0].0 == "_id"@);
    assert(gs[1].0 == "id"@);
    assert(gs[2].0 == "date"@);
    assert(field(g, "_id"@) == Some(key));
    let ks = key->Document_0;
    assert(entry_value(ks.drop_first(), "date"@) == Some(written));
    assert(field(key, "date"@) == Some(written));
    let acc = BsonV::doc().with("$first"@, written);
    assert(entry_value(gs.drop_first().drop_first(), "date"@) == Some(acc));
    assert(entry_value(gs.drop_first(), "date"@) == Some(acc));
    assert(field(g, "date"@) == Some(acc));
    let env = unwound_signature_env(s);
    assert(("$signatures.creation_date"@).len() != ("$signatures.withdrawal_date"@).len());
    assert(env.contains_key(path));
    assert(operand_value(BsonV::String(path), env) == (if creation {
        BsonV::DateTime(s.creation_date)
    } else {
        date_or_null(s.withdrawal_date)
    }));
}

/// The array an operand of `$setUnion` gives, read in `env`: a path's
/// array, or for `{$ifNull: [a, b]}` the array `a` gives, else `b`'s.
pub open spec fn array_operand(e: BsonV, env: Map<Seq<char>, BsonV>) -> Seq<BsonV> {
    match field(e, "$ifNull"@) {
        Some(BsonV::Array(args)) => if args.len() == 2 {
            match operand_value(args[0], env) {
                BsonV::Array(xs) => xs,
                _ => as_array(operand_value(args[1], env)),
            }
        } else {
            Seq::empty()
        },
        _ => as_array(operand_value(e, env)),
    }
}

/// The elements of an array value; none for any other value.
pub open spec fn as_array(v: BsonV) -> Seq<BsonV> {
    match v {
        BsonV::Array(xs) => xs,
        _ => Seq::empty(),
    }
}

/// Whether `{$setUnion: [..]}` gives a set holding `x`: one of its
/// operands' arrays does.
pub open spec fn union_holds(e: BsonV, env: Map<Seq<char>, BsonV>, x: BsonV) -> bool {
    match field(e, "$setUnion"@) {
        Some(BsonV::Array(args)) => exists|i: int| 0 <= i < args.len() && #[trigger] array_operand(args[i], env).contains(x),
        _ => false,
    }
}

/// The array a path holds in `env`, or none.
pub open spec fn path_array(env: Map<Seq<char>, BsonV>, path: Seq<char>) -> Seq<BsonV> {
    if env.contains_key(path) {
        as_array(env[path])
    } else {
        Seq::empty()
    }
}

/// Collecting a motion's signatures: the fourth stage sets `signatures`
/// to the union of the motion's supporting signatures, its withdrawn
/// signatures and those gathered from its amendments; a signature is
/// collected exactly when it is among one of them.
pub proof fn law_collect_signatures(env: Map<Seq<char>, BsonV>, x: BsonV)
    ensures
        collect_signatures_stages().len() > 3,
        set_field(collect_signatures_stages()[3], "signatures"@) matches Some(e) && (union_holds(e, env, x)
            <==> (path_array(env, "$item.supporting_signatures"@).contains(x)
                || path_array(env, "$item.withdrawn_signatures"@).contains(x)
                || path_array(env, "$signatures"@).contains(x))),
{
    let a = BsonV::doc().with("$ifNull"@, BsonV::arr().item(BsonV::String("$item.supporting_signatures"@)).item(BsonV::arr()));
    let b = BsonV::doc().with("$ifNull"@, BsonV::arr().item(BsonV::String("$item.withdrawn_signatures"@)).item(BsonV::arr()));
    let c = BsonV::String("$signatures"@);
    let args = BsonV::arr().item(a).item(b).item(c)->Array_0;
    let e = BsonV::doc().with("$setUnion"@, BsonV::Array(args));
    assert(collect_signatures_stages()[3] == BsonV::doc().with("$set"@, BsonV::doc().with("signatures"@, e)));
    assert(set_field(collect_signatures_stages()[3], "signatures"@) == Some(e));
    assert(field(c, "$ifNull"@) is None);
    assert(array_operand(a, env) =~= path_array(env, "$item.supporting_signatures"@));
    assert(array_operand(b, env) =~= path_array(env, "$item.withdrawn_signatures"@));
    assert(array_operand(c, env) =~= path_array(env, "$signatures"@));
    assert(args[0] == a);
    assert(args[1] == b);
    assert(args[2] == c);
    if path_array(env, "$item.supporting_signatures"@).contains(x) {
        assert(array_operand(args[0], env).contains(x));
    }
    if path_array(env, "$item.withdrawn_signatures"@).contains(x) {
        assert(array_operand(args[1], env).contains(x));
    }
    if path_array(env, "$signatures"@).contains(x) {
        assert(array_operand(args[2], env).contains(x));
    }
}

/// The main query ends by ordering the motions by their number of
/// signatures, the most first: its next to last stage sets `temp` to that
/// number and its last stage orders by `temp` descending.
pub proof fn law_main_query_most_signatures_first(filters: Seq<BsonV>, signatures: Seq<BsonV>)
    ensures
        main_query_stages(filters).len() >= 2,
        set_field(main_query_stages(filters)[main_query_stages(filters).len() - 2], "temp"@) matches Some(e)
            && size_value(e, signatures_env(signatures)) == Some(signatures.len() as int),
        sort_order(main_query_stages(filters)[main_query_stages(filters).len() - 1], "temp"@) == Some(
            SortOrder::Descending,
        ),
{
    law_sort_by_signature_count(false, signatures);
    let st = main_query_stages(filters);
    let sorting = sort_by_signature_count_stages(false);
    let n = st.len();
    assert(st[n - 1] == sorting[1]);
    assert(st[n - 2] == sorting[0]);
}

} // verus!

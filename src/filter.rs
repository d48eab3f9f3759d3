use vstd::prelude::*;
use crate::error::StoreError;
use crate::ident::{is_valid_identifier, valid_identifier};
use crate::sql::{placeholder_list, placeholders};

verus! {

/// A metadata value that a filter can compare with.
#[derive(Debug, Clone)]
pub enum Scalar {
    Text(String),
    Int(i64),
    Bool(bool),
}

pub enum ScalarView {
    Text(Seq<char>),
    Int(int),
    Bool(bool),
}

impl View for Scalar {
    type V = ScalarView;

    open spec fn view(&self) -> ScalarView {
        match self {
            Scalar::Text(s) => ScalarView::Text(s@),
            Scalar::Int(i) => ScalarView::Int(*i as int),
            Scalar::Bool(b) => ScalarView::Bool(*b),
        }
    }
}

/// What one key of a filter asks of a document's metadata.
#[derive(Debug, Clone)]
pub enum FilterValue {
    /// The value at the key equals this one.
    Equals(Scalar),
    /// The value at the key is one of these.
    OneOf(Vec<Scalar>),
    /// A shape that cannot be compared (an object, a null, a nested array, a fraction).
    Unsupported,
}

pub enum FilterValueView {
    Equals(ScalarView),
    OneOf(Seq<ScalarView>),
    Unsupported,
}

pub open spec fn scalar_views(v: Seq<Scalar>) -> Seq<ScalarView> {
    v.map_values(|s: Scalar| s@)
}

impl View for FilterValue {
    type V = FilterValueView;

    open spec fn view(&self) -> FilterValueView {
        match self {
            FilterValue::Equals(s) => FilterValueView::Equals(s@),
            FilterValue::OneOf(v) => FilterValueView::OneOf(scalar_views(v@)),
            FilterValue::Unsupported => FilterValueView::Unsupported,
        }
    }
}

/// A value bound to a statement parameter.
#[derive(Debug, Clone)]
pub enum SqlParam {
    Text(String),
    Int(i64),
}

pub enum SqlParamView {
    Text(Seq<char>),
    Int(int),
}

impl View for SqlParam {
    type V = SqlParamView;

    open spec fn view(&self) -> SqlParamView {
        match self {
            SqlParam::Text(s) => SqlParamView::Text(s@),
            SqlParam::Int(i) => SqlParamView::Int(*i as int),
        }
    }
}

pub open spec fn param_views(v: Seq<SqlParam>) -> Seq<SqlParamView> {
    v.map_values(|p: SqlParam| p@)
}

/// A filter: keys of the metadata and what each asks, all of which must hold.
pub type Predicate = Vec<(String, FilterValue)>;

pub open spec fn predicate_view(p: Seq<(String, FilterValue)>) -> Seq<(Seq<char>, FilterValueView)> {
    p.map_values(|e: (String, FilterValue)| (e.0@, e.1@))
}

/// How the storage engine sees a metadata value: a boolean is the integer 1 or 0.
pub open spec fn scalar_param(v: ScalarView) -> SqlParamView {
    match v {
        ScalarView::Text(s) => SqlParamView::Text(s),
        ScalarView::Int(i) => SqlParamView::Int(i),
        ScalarView::Bool(b) => SqlParamView::Int(if b { 1 } else { 0 }),
    }
}

/// The metadata column, qualified by a table alias or not.
pub open spec fn metadata_column(q: Option<Seq<char>>) -> Seq<char> {
    match q {
        None => "metadata"@,
        Some(a) => a + ".metadata"@,
    }
}

/// The JSON path of a top-level key.
pub open spec fn key_path(k: Seq<char>) -> Seq<char> {
    "$."@ + k
}

pub open spec fn clause_sql(col: Seq<char>, v: FilterValueView) -> Seq<char> {
    match v {
        FilterValueView::OneOf(vs) => "json_extract("@ + col + ", ?) IN ("@ + placeholders(vs.len())
            + ")"@,
        _ => "json_extract("@ + col + ", ?) = ?"@,
    }
}

pub open spec fn clause_params(k: Seq<char>, v: FilterValueView) -> Seq<SqlParamView> {
    seq![SqlParamView::Text(key_path(k))] + match v {
        FilterValueView::Equals(s) => seq![scalar_param(s)],
        FilterValueView::OneOf(vs) => vs.map_values(|s: ScalarView| scalar_param(s)),
        FilterValueView::Unsupported => Seq::empty(),
    }
}

/// The condition text of a filter: its clauses joined by AND, or the
/// condition that always holds where the filter is empty.
pub open spec fn filter_sql(col: Seq<char>, p: Seq<(Seq<char>, FilterValueView)>) -> Seq<char>
    decreases p.len(),
{
    if p.len() == 0 {
        "1=1"@
    } else if p.len() == 1 {
        clause_sql(col, p[0].1)
    } else {
        filter_sql(col, p.drop_last()) + " AND "@ + clause_sql(col, p.last().1)
    }
}

/// The parameters of a filter's condition, in the order of its placeholders.
pub open spec fn filter_params(p: Seq<(Seq<char>, FilterValueView)>) -> Seq<SqlParamView>
    decreases p.len(),
{
    if p.len() == 0 {
        Seq::empty()
    } else {
        filter_params(p.drop_last()) + clause_params(p.last().0, p.last().1)
    }
}

/// Every key is an identifier and every value has a shape the compiler takes.
pub open spec fn filter_supported(p: Seq<(Seq<char>, FilterValueView)>) -> bool {
    forall|i: int|
        0 <= i < p.len() ==> valid_identifier((#[trigger] p[i]).0) && !(p[i].1 is Unsupported)
}

/// A filter's condition, with every value in a bound parameter.
pub struct CompiledFilter {
    pub sql: String,
    pub params: Vec<SqlParam>,
}

fn scalar_to_param(s: &Scalar) -> (r: SqlParam)
    ensures
        r@ == scalar_param(s@),
{
    match s {
        Scalar::Text(t) => SqlParam::Text(t.clone()),
        Scalar::Int(i) => SqlParam::Int(*i),
        Scalar::Bool(b) => SqlParam::Int(if *b { 1 } else { 0 }),
    }
}

fn clause_of(col: &str, key: &str, v: &FilterValue, params: &mut Vec<SqlParam>) -> (r: String)
    requires
        !(v@ is Unsupported),
    ensures
        r@ == clause_sql(col@, v@),
        param_views(final(params)@) == param_views(old(params)@) + clause_params(key@, v@),
{
    let ghost p0 = param_views(params@);
    let mut path = String::from_str("$.");
    path.append(key);
    params.push(SqlParam::Text(path));
    let mut s = String::from_str("json_extract(");
    s.append(col);
    match v {
        FilterValue::Equals(x) => {
            params.push(scalar_to_param(x));
            s.append(", ?) = ?");
            assert(param_views(params@) =~= p0 + clause_params(key@, v@));
        },
        FilterValue::OneOf(xs) => {
            s.append(", ?) IN (");
            let ph = placeholder_list(xs.len());
            s.append(ph.as_str());
            s.append(")");
            let ghost ps1 = params@;
            let ghost p1 = param_views(params@);
            let ghost xv = scalar_views(xs@);
            let mut i: usize = 0;
            while i < xs.len()
                invariant
                    i <= xs@.len(),
                    xv == scalar_views(xs@),
                    params@.len() == ps1.len() + i,
                    params@.subrange(0, ps1.len() as int) == ps1,
                    forall|j: int| 0 <= j < i ==> (#[trigger] params@[ps1.len() + j])@ == scalar_param(xv[j]),
                decreases xs.len() - i,
            {
                params.push(scalar_to_param(&xs[i]));
                assert(params@.subrange(0, ps1.len() as int) =~= ps1);
                i = i + 1;
            }
            assert(param_views(params@) =~= p1 + xv.map_values(|s: ScalarView| scalar_param(s))) by {
                assert forall|j: int| 0 <= j < params@.len() implies #[trigger] param_views(params@)[j]
                    == (p1 + xv.map_values(|s: ScalarView| scalar_param(s)))[j] by {
                    if j >= ps1.len() {
                        assert(params@[ps1.len() + (j - ps1.len())]@ == scalar_param(xv[j - ps1.len()]));
                    } else {
                        assert(params@.subrange(0, ps1.len() as int)[j] == ps1[j]);
                    }
                }
            }
            assert(p1 =~= p0 + seq![SqlParamView::Text(key_path(key@))]);
            assert(param_views(params@) =~= p0 + clause_params(key@, v@));
        },
        FilterValue::Unsupported => {},
    }
    s
}

/// Compiles a filter into a condition on the metadata column, qualified by
/// `alias` where one is given. Fails where a key is not an identifier, a value
/// has an unsupported shape, or the alias is not an identifier.
pub fn compile_filter(pred: &Predicate, alias: Option<&str>) -> (r: Result<CompiledFilter, StoreError>)
    ensures
        r.is_ok() <==> (filter_supported(predicate_view(pred@)) && match alias {
            Some(a) => valid_identifier(a@),
            None => true,
        }),
        r is Err ==> r == Err::<CompiledFilter, StoreError>(StoreError::Filter),
        r matches Ok(c) ==> c.sql@ == filter_sql(
            metadata_column(
                match alias {
                    Some(a) => Some(a@),
                    None => None,
                },
            ),
            predicate_view(pred@),
        ) && param_views(c.params@) == filter_params(predicate_view(pred@)),
{
    let ghost pv = predicate_view(pred@);
    let col = match alias {
        Some(a) => {
            if !is_valid_identifier(a) {
                return Err(StoreError::Filter);
            }
            let mut c = String::from_str(a);
            c.append(".metadata");
            c
        },
        None => String::from_str("metadata"),
    };
    let ghost colv = col@;
    let mut i: usize = 0;
    while i < pred.len()
        invariant
            i <= pred@.len(),
            pv == predicate_view(pred@),
            forall|j: int| 0 <= j < i ==> valid_identifier((#[trigger] pv[j]).0) && !(pv[j].1 is Unsupported),
        decreases pred.len() - i,
    {
        assert(pv[i as int] == (pred@[i as int].0@, pred@[i as int].1@));
        if !is_valid_identifier(pred[i].0.as_str()) {
            assert(!filter_supported(pv)) by {
                assert(!valid_identifier(pv[i as int].0));
            }
            return Err(StoreError::Filter);
        }
        if let FilterValue::Unsupported = &pred[i].1 {
            assert(!filter_supported(pv)) by {
                assert(pv[i as int].1 is Unsupported);
            }
            return Err(StoreError::Filter);
        }
        i = i + 1;
    }
    if pred.len() == 0 {
        return Ok(CompiledFilter { sql: String::from_str("1=1"), params: Vec::new() });
    }
    let mut sql = String::new();
    let mut params: Vec<SqlParam> = Vec::new();
    let mut i: usize = 0;
    while i < pred.len()
        invariant
            1 <= pred@.len(),
            i <= pred@.len(),
            pv == predicate_view(pred@),
            colv == col@,
            filter_supported(pv),
            i > 0 ==> sql@ == filter_sql(colv, pv.take(i as int)),
            i == 0 ==> sql@ == Seq::<char>::empty(),
            param_views(params@) == filter_params(pv.take(i as int)),
        decreases pred.len() - i,
    {
        assert(pv.take(i + 1).drop_last() =~= pv.take(i as int));
        assert(pv[i as int] == (pred@[i as int].0@, pred@[i as int].1@));
        assert(pv.take(i + 1).last() == pv[i as int]);
        assert(valid_identifier(pv[i as int].0) && !(pv[i as int].1 is Unsupported));
        let clause = clause_of(col.as_str(), pred[i].0.as_str(), &pred[i].1, &mut params);
        if i > 0 {
            sql.append(" AND ");
        }
        sql.append(clause.as_str());
        i = i + 1;
        if i == 1 {
            assert(pv.take(1)[0] == pv[0]);
            assert(sql@ =~= filter_sql(colv, pv.take(i as int)));
        }
    }
    assert(pv.take(pred@.len() as int) =~= pv);
    Ok(CompiledFilter { sql, params })
}


/// Top-level metadata entries, as the filter sees them.
pub open spec fn attrs_view(a: Seq<(String, Scalar)>) -> Seq<(Seq<char>, ScalarView)> {
    a.map_values(|e: (String, Scalar)| (e.0@, e.1@))
}

/// The value at key `k`: the first entry that has it.
pub open spec fn lookup(a: Seq<(Seq<char>, ScalarView)>, k: Seq<char>) -> Option<ScalarView>
    decreases a.len(),
{
    if a.len() == 0 {
        None
    } else if a[0].0 == k {
        Some(a[0].1)
    } else {
        lookup(a.drop_first(), k)
    }
}

/// A metadata value meets what a filter asks of its key: a missing key never does.
pub open spec fn value_matches(m: Option<ScalarView>, f: FilterValueView) -> bool {
    match m {
        None => false,
        Some(v) => match f {
            FilterValueView::Equals(s) => scalar_param(v) == scalar_param(s),
            FilterValueView::OneOf(vs) => exists|j: int|
                0 <= j < vs.len() && scalar_param(#[trigger] vs[j]) == scalar_param(v),
            FilterValueView::Unsupported => false,
        },
    }
}

/// Metadata satisfies a filter where it meets every one of its keys.
pub open spec fn satisfies(a: Seq<(Seq<char>, ScalarView)>, p: Seq<(Seq<char>, FilterValueView)>) -> bool {
    forall|i: int| 0 <= i < p.len() ==> value_matches(lookup(a, (#[trigger] p[i]).0), p[i].1)
}

fn same_param(a: &SqlParam, b: &SqlParam) -> (r: bool)
    ensures
        r == (a@ == b@),
{
    match (a, b) {
        (SqlParam::Text(x), SqlParam::Text(y)) => x.eq(y),
        (SqlParam::Int(x), SqlParam::Int(y)) => *x == *y,
        _ => false,
    }
}

fn find_attr<'a>(attrs: &'a Vec<(String, Scalar)>, key: &String) -> (r: Option<&'a Scalar>)
    ensures
        lookup(attrs_view(attrs@), key@) == match r {
            None => None,
            Some(v) => Some(v@),
        },
{
    let ghost av = attrs_view(attrs@);
    assert(av.skip(0) =~= av);
    let mut i: usize = 0;
    while i < attrs.len()
        invariant
            i <= attrs@.len(),
            av == attrs_view(attrs@),
            lookup(av, key@) == lookup(av.skip(i as int), key@),
        decreases attrs.len() - i,
    {
        assert(av.skip(i as int).drop_first() =~= av.skip(i + 1));
        assert(av.skip(i as int)[0] == (attrs@[i as int].0@, attrs@[i as int].1@));
        if attrs[i].0 == *key {
            return Some(&attrs[i].1);
        }
        i = i + 1;
    }
    None
}

fn value_matches_exec(m: Option<&Scalar>, f: &FilterValue) -> (r: bool)
    ensures
        r == value_matches(
            match m {
                None => None,
                Some(v) => Some(v@),
            },
            f@,
        ),
{
    match m {
        None => false,
        Some(v) => {
            let pv = scalar_to_param(v);
            match f {
                FilterValue::Equals(s) => same_param(&pv, &scalar_to_param(s)),
                FilterValue::OneOf(vs) => {
                    let ghost sv = scalar_views(vs@);
                    assert(f@ == FilterValueView::OneOf(sv));
                    let mut j: usize = 0;
                    while j < vs.len()
                        invariant
                            j <= vs@.len(),
                            sv == scalar_views(vs@),
                            f@ == FilterValueView::OneOf(sv),
                            m == Some(v),
                            pv@ == scalar_param(v@),
                            forall|t: int| 0 <= t < j ==> scalar_param(#[trigger] sv[t]) != scalar_param(v@),
                        decreases vs.len() - j,
                    {
                        if same_param(&scalar_to_param(&vs[j]), &pv) {
                            assert(scalar_param(sv[j as int]) == scalar_param(v@));
                            assert(f@ == FilterValueView::OneOf(sv));
                            return true;
                        }
                        j = j + 1;
                    }
                    assert(f@ == FilterValueView::OneOf(sv));
                    assert(!value_matches(Some(v@), f@)) by {
                        if exists|t: int| 0 <= t < sv.len() && scalar_param(#[trigger] sv[t]) == scalar_param(v@) {
                            let t = choose|t: int| 0 <= t < sv.len() && scalar_param(#[trigger] sv[t]) == scalar_param(v@);
                            assert(scalar_param(sv[t]) != scalar_param(v@));
                        }
                    }
                    false
                },
                FilterValue::Unsupported => false,
            }
        },
    }
}

/// Tells whether the metadata entries `attrs` satisfy `pred`, comparing as
/// the storage engine does.
pub fn metadata_satisfies(attrs: &Vec<(String, Scalar)>, pred: &Predicate) -> (r: bool)
    ensures
        r == satisfies(attrs_view(attrs@), predicate_view(pred@)),
{
    let ghost pv = predicate_view(pred@);
    let ghost av = attrs_view(attrs@);
    let mut i: usize = 0;
    while i < pred.len()
        invariant
            i <= pred@.len(),
            pv == predicate_view(pred@),
            av == attrs_view(attrs@),
            forall|t: int| 0 <= t < i ==> value_matches(lookup(av, (#[trigger] pv[t]).0), pv[t].1),
        decreases pred.len() - i,
    {
        assert(pv[i as int] == (pred@[i as int].0@, pred@[i as int].1@));
        let m = find_attr(attrs, &pred[i].0);
        if !value_matches_exec(m, &pred[i].1) {
            return false;
        }
        i = i + 1;
    }
    true
}
} // verus!

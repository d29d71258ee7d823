//! Marshaling across the host/engine boundary: requests and responses cross
//! as JSON values (strings, numbers, booleans, null, arrays, objects).
//! Encoding and decoding are exact inverses, proved below.

use vstd::prelude::*;

use crate::error::WorkerError;
use crate::model::{kvs_view, Req, ReqV, Res, ResV};

verus! {

broadcast use vstd::std_specs::vec::axiom_vec_index_decreases, vstd::std_specs::vec::axiom_vec_decreases_to_view, vstd::seq::axiom_seq_index_decreases;

/// A JSON value as it crosses the boundary.
#[derive(Debug)]
pub enum Json {
    Null,
    Bool(bool),
    Num(i64),
    Str(String),
    Arr(Vec<Json>),
    Obj(Vec<(String, Json)>),
}

/// Ghost form of a JSON value.
pub ghost enum JsonV {
    Null,
    Bool(bool),
    Num(int),
    Str(Seq<char>),
    Arr(Seq<JsonV>),
    Obj(Seq<(Seq<char>, JsonV)>),
}

/// Ghost form of a JSON value, structurally.
pub open spec fn json_view(j: Json) -> JsonV
    decreases j,
{
    match j {
        Json::Null => JsonV::Null,
        Json::Bool(b) => JsonV::Bool(b),
        Json::Num(n) => JsonV::Num(n as int),
        Json::Str(s) => JsonV::Str(s@),
        Json::Arr(a) => JsonV::Arr(
            Seq::new(
                a@.len(),
                |i: int|
                    if 0 <= i < a@.len() {
                        json_view(a@[i])
                    } else {
                        JsonV::Null
                    },
            ),
        ),
        Json::Obj(o) => JsonV::Obj(
            Seq::new(
                o@.len(),
                |i: int|
                    if 0 <= i < o@.len() {
                        (o@[i].0@, json_view(o@[i].1))
                    } else {
                        (Seq::empty(), JsonV::Null)
                    },
            ),
        ),
    }
}

impl View for Json {
    type V = JsonV;

    open spec fn view(&self) -> JsonV {
        json_view(*self)
    }
}

/// The value under the first entry named `k`, if any.
pub open spec fn spec_obj_get(o: Seq<(Seq<char>, JsonV)>, k: Seq<char>) -> Option<JsonV>
    decreases o.len(),
{
    if o.len() == 0 {
        Option::None
    } else if o[0].0 == k {
        Option::Some(o[0].1)
    } else {
        spec_obj_get(o.drop_first(), k)
    }
}

/// A string map rendered as a JSON object of string values.
pub open spec fn kv_obj(m: Seq<(Seq<char>, Seq<char>)>) -> Seq<(Seq<char>, JsonV)> {
    m.map_values(|p: (Seq<char>, Seq<char>)| (p.0, JsonV::Str(p.1)))
}

/// Read a JSON object back as a string map; fails if any value is not a
/// string.
pub open spec fn spec_str_pairs(o: Seq<(Seq<char>, JsonV)>) -> Option<Seq<(Seq<char>, Seq<char>)>>
    decreases o.len(),
{
    if o.len() == 0 {
        Option::Some(Seq::empty())
    } else {
        match (spec_str_pairs(o.drop_last()), o.last().1) {
            (Option::Some(init), JsonV::Str(s)) => Option::Some(init.push((o.last().0, s))),
            _ => Option::None,
        }
    }
}

/// The JSON form of a request: an object with its six fields; an absent
/// body encodes as null, so absent and empty stay distinguishable.
pub open spec fn spec_req_json(r: ReqV) -> JsonV {
    JsonV::Obj(
        seq![
            ("method"@, JsonV::Str(r.method)),
            ("url"@, JsonV::Str(r.url)),
            ("query"@, JsonV::Obj(kv_obj(r.query))),
            ("params"@, JsonV::Obj(kv_obj(r.params))),
            ("headers"@, JsonV::Obj(kv_obj(r.headers))),
            (
                "body"@,
                match r.body {
                    Option::Some(b) => JsonV::Str(b),
                    Option::None => JsonV::Null,
                },
            ),
        ],
    )
}

/// Decode a JSON value as a request; every field must be present and of the
/// right shape.
pub open spec fn spec_json_to_req(v: JsonV) -> Option<ReqV> {
    match v {
        JsonV::Obj(o) => {
            match (
                spec_obj_get(o, "method"@),
                spec_obj_get(o, "url"@),
                spec_obj_get(o, "query"@),
                spec_obj_get(o, "params"@),
                spec_obj_get(o, "headers"@),
                spec_obj_get(o, "body"@),
            ) {
                (
                    Option::Some(JsonV::Str(method)),
                    Option::Some(JsonV::Str(url)),
                    Option::Some(JsonV::Obj(qo)),
                    Option::Some(JsonV::Obj(po)),
                    Option::Some(JsonV::Obj(ho)),
                    Option::Some(bv),
                ) => {
                    match (spec_str_pairs(qo), spec_str_pairs(po), spec_str_pairs(ho)) {
                        (Option::Some(query), Option::Some(params), Option::Some(headers)) => {
                            match bv {
                                JsonV::Null => Option::Some(
                                    ReqV {
                                        method,
                                        url,
                                        query,
                                        params,
                                        headers,
                                        body: Option::None,
                                    },
                                ),
                                JsonV::Str(b) => Option::Some(
                                    ReqV {
                                        method,
                                        url,
                                        query,
                                        params,
                                        headers,
                                        body: Option::Some(b),
                                    },
                                ),
                                _ => Option::None,
                            }
                        },
                        _ => Option::None,
                    }
                },
                _ => Option::None,
            }
        },
        _ => Option::None,
    }
}

/// The JSON form of a response: status, headers, and a body that is a
/// string or null.
pub open spec fn spec_res_json(r: ResV) -> JsonV {
    JsonV::Obj(
        seq![
            ("status"@, JsonV::Num(r.status as int)),
            ("headers"@, JsonV::Obj(kv_obj(r.headers))),
            (
                "body"@,
                match r.body {
                    Option::Some(b) => JsonV::Str(b),
                    Option::None => JsonV::Null,
                },
            ),
        ],
    )
}

/// Decode a JSON value as a response: the status must be a number within
/// `100..=599`, the headers an object of strings, the body a string or
/// null.
pub open spec fn spec_json_to_res(v: JsonV) -> Option<ResV> {
    match v {
        JsonV::Obj(o) => {
            match (spec_obj_get(o, "status"@), spec_obj_get(o, "headers"@), spec_obj_get(
                o,
                "body"@,
            )) {
                (
                    Option::Some(JsonV::Num(status)),
                    Option::Some(JsonV::Obj(ho)),
                    Option::Some(bv),
                ) => {
                    if 100 <= status <= 599 {
                        match spec_str_pairs(ho) {
                            Option::Some(headers) => {
                                match bv {
                                    JsonV::Null => Option::Some(
                                        ResV {
                                            status: status as u16,
                                            headers,
                                            body: Option::None,
                                        },
                                    ),
                                    JsonV::Str(b) => Option::Some(
                                        ResV {
                                            status: status as u16,
                                            headers,
                                            body: Option::Some(b),
                                        },
                                    ),
                                    _ => Option::None,
                                }
                            },
                            _ => Option::None,
                        }
                    } else {
                        Option::None
                    }
                },
                _ => Option::None,
            }
        },
        _ => Option::None,
    }
}

/// Reading back a rendered string map yields the map.
proof fn lemma_kv_obj_round_trip(m: Seq<(Seq<char>, Seq<char>)>)
    ensures
        spec_str_pairs(kv_obj(m)) == Option::<Seq<(Seq<char>, Seq<char>)>>::Some(m),
    decreases m.len(),
{
    if m.len() == 0 {
        assert(kv_obj(m) =~= Seq::<(Seq<char>, JsonV)>::empty());
    } else {
        lemma_kv_obj_round_trip(m.drop_last());
        assert(kv_obj(m).drop_last() =~= kv_obj(m.drop_last()));
        assert(kv_obj(m).last() == (m.last().0, JsonV::Str(m.last().1)));
        assert(m.drop_last().push(m.last()) =~= m);
    }
}

/// Round trip for requests: decoding the encoding of any request yields
/// exactly that request.
pub proof fn lemma_req_round_trip(r: ReqV)
    ensures
        spec_json_to_req(spec_req_json(r)) == Option::Some(r),
{
    reveal_strlit("method");
    reveal_strlit("url");
    reveal_strlit("query");
    reveal_strlit("params");
    reveal_strlit("headers");
    reveal_strlit("body");
    let o = match spec_req_json(r) {
        JsonV::Obj(o) => o,
        _ => Seq::empty(),
    };
    let bv = match r.body {
        Option::Some(b) => JsonV::Str(b),
        Option::None => JsonV::Null,
    };
    assert(o.len() == 6);
    assert(o[0] == ("method"@, JsonV::Str(r.method)));
    assert(o[1] == ("url"@, JsonV::Str(r.url)));
    assert(o[2] == ("query"@, JsonV::Obj(kv_obj(r.query))));
    assert(o[3] == ("params"@, JsonV::Obj(kv_obj(r.params))));
    assert(o[4] == ("headers"@, JsonV::Obj(kv_obj(r.headers))));
    assert(o[5] == ("body"@, bv));
    let o1 = o.drop_first();
    let o2 = o1.drop_first();
    let o3 = o2.drop_first();
    let o4 = o3.drop_first();
    let o5 = o4.drop_first();
    assert(o1.len() == 5 && o1[0] == o[1] && o1[1] == o[2] && o1[2] == o[3] && o1[3] == o[4]
        && o1[4] == o[5]);
    assert(o2.len() == 4 && o2[0] == o[2] && o2[1] == o[3] && o2[2] == o[4] && o2[3] == o[5]);
    assert(o3.len() == 3 && o3[0] == o[3] && o3[1] == o[4] && o3[2] == o[5]);
    assert(o4.len() == 2 && o4[0] == o[4] && o4[1] == o[5]);
    assert(o5.len() == 1 && o5[0] == o[5]);
    assert("method"@.len() == 6);
    assert("url"@.len() == 3);
    assert("query"@.len() == 5);
    assert("params"@.len() == 6);
    assert("headers"@.len() == 7);
    assert("body"@.len() == 4);
    assert("method"@ != "params"@) by {
        assert("method"@[0] == 'm');
        assert("params"@[0] == 'p');
    }
    assert(spec_obj_get(o, "method"@) == Option::Some(JsonV::Str(r.method)));
    assert(spec_obj_get(o, "url"@) == spec_obj_get(o1, "url"@));
    assert(spec_obj_get(o1, "url"@) == Option::Some(JsonV::Str(r.url)));
    assert(spec_obj_get(o, "query"@) == spec_obj_get(o1, "query"@));
    assert(spec_obj_get(o1, "query"@) == spec_obj_get(o2, "query"@));
    assert(spec_obj_get(o2, "query"@) == Option::Some(JsonV::Obj(kv_obj(r.query))));
    assert(spec_obj_get(o, "params"@) == spec_obj_get(o1, "params"@));
    assert(spec_obj_get(o1, "params"@) == spec_obj_get(o2, "params"@));
    assert(spec_obj_get(o2, "params"@) == spec_obj_get(o3, "params"@));
    assert(spec_obj_get(o3, "params"@) == Option::Some(JsonV::Obj(kv_obj(r.params))));
    assert(spec_obj_get(o, "headers"@) == spec_obj_get(o1, "headers"@));
    assert(spec_obj_get(o1, "headers"@) == spec_obj_get(o2, "headers"@));
    assert(spec_obj_get(o2, "headers"@) == spec_obj_get(o3, "headers"@));
    assert(spec_obj_get(o3, "headers"@) == spec_obj_get(o4, "headers"@));
    assert(spec_obj_get(o4, "headers"@) == Option::Some(JsonV::Obj(kv_obj(r.headers))));
    assert(spec_obj_get(o, "body"@) == spec_obj_get(o1, "body"@));
    assert(spec_obj_get(o1, "body"@) == spec_obj_get(o2, "body"@));
    assert(spec_obj_get(o2, "body"@) == spec_obj_get(o3, "body"@));
    assert(spec_obj_get(o3, "body"@) == spec_obj_get(o4, "body"@));
    assert(spec_obj_get(o4, "body"@) == spec_obj_get(o5, "body"@));
    assert(spec_obj_get(o5, "body"@) == Option::Some(bv));
    lemma_kv_obj_round_trip(r.query);
    lemma_kv_obj_round_trip(r.params);
    lemma_kv_obj_round_trip(r.headers);
}

/// Round trip for responses: decoding the encoding of any well-formed
/// response yields exactly that response. This is the verifiable half of
/// the echo law: a handler that returns its input unchanged hands back a
/// value that decodes to the original response.
pub proof fn lemma_res_round_trip(r: ResV)
    requires
        100 <= r.status <= 599,
    ensures
        spec_json_to_res(spec_res_json(r)) == Option::Some(r),
{
    reveal_strlit("status");
    reveal_strlit("headers");
    reveal_strlit("body");
    let o = match spec_res_json(r) {
        JsonV::Obj(o) => o,
        _ => Seq::empty(),
    };
    let bv = match r.body {
        Option::Some(b) => JsonV::Str(b),
        Option::None => JsonV::Null,
    };
    assert(o.len() == 3);
    assert(o[0] == ("status"@, JsonV::Num(r.status as int)));
    assert(o[1] == ("headers"@, JsonV::Obj(kv_obj(r.headers))));
    assert(o[2] == ("body"@, bv));
    let o1 = o.drop_first();
    let o2 = o1.drop_first();
    assert(o1.len() == 2 && o1[0] == o[1] && o1[1] == o[2]);
    assert(o2.len() == 1 && o2[0] == o[2]);
    assert("status"@.len() == 6);
    assert("headers"@.len() == 7);
    assert("body"@.len() == 4);
    assert(spec_obj_get(o, "status"@) == Option::Some(JsonV::Num(r.status as int)));
    assert(spec_obj_get(o, "headers"@) == spec_obj_get(o1, "headers"@));
    assert(spec_obj_get(o1, "headers"@) == Option::Some(JsonV::Obj(kv_obj(r.headers))));
    assert(spec_obj_get(o, "body"@) == spec_obj_get(o1, "body"@));
    assert(spec_obj_get(o1, "body"@) == spec_obj_get(o2, "body"@));
    assert(spec_obj_get(o2, "body"@) == Option::Some(bv));
    lemma_kv_obj_round_trip(r.headers);
}

/// View of an object's entry list.
pub open spec fn obj_view(s: Seq<(String, Json)>) -> Seq<(Seq<char>, JsonV)> {
    s.map_values(|p: (String, Json)| (p.0@, p.1@))
}

/// The entry list of an object value equals its view's entry list.
proof fn lemma_obj_view(o: &Vec<(String, Json)>)
    ensures
        Json::Obj(*o)@ == JsonV::Obj(obj_view(o@)),
{
    let inner = match Json::Obj(*o)@ {
        JsonV::Obj(s) => s,
        _ => Seq::empty(),
    };
    assert(inner.len() == o@.len());
    assert(forall|i: int| 0 <= i < o@.len() ==> inner[i] == (o@[i].0@, o@[i].1@));
    assert(inner =~= obj_view(o@));
}

/// Render a string map as an object of string values.
fn kvs_to_json(v: &Vec<(String, String)>) -> (o: Vec<(String, Json)>)
    ensures
        obj_view(o@) == kv_obj(kvs_view(v@)),
{
    let mut o: Vec<(String, Json)> = Vec::new();
    let mut i: usize = 0;
    while i < v.len()
        invariant
            i <= v.len(),
            o@.len() == i,
            forall|k: int|
                0 <= k < i ==> (#[trigger] o@[k]).0@ == v@[k].0@ && json_view(o@[k].1)
                    == JsonV::Str(v@[k].1@),
        decreases v.len() - i,
    {
        let name = v[i].0.clone();
        let value = Json::Str(v[i].1.clone());
        let ghost gpair = (name, value);
        proof {
            assert(json_view(gpair.1) == JsonV::Str(v@[i as int].1@));
        }
        let ghost pre = o@;
        o.push((name, value));
        proof {
            assert(o@ == pre.push(gpair));
            assert(o@[i as int] == gpair);
        }
        i += 1;
    }
    proof {
        assert(obj_view(o@) =~= kv_obj(kvs_view(v@)));
    }
    o
}

/// Encode a request as the JSON value handed to the engine.
pub fn req_to_json(req: &Req) -> (j: Json)
    ensures
        j@ == spec_req_json(req@),
{
    let qv = kvs_to_json(&req.query);
    let pv = kvs_to_json(&req.params);
    let hv = kvs_to_json(&req.headers);
    proof {
        lemma_obj_view(&qv);
        lemma_obj_view(&pv);
        lemma_obj_view(&hv);
    }
    let mut o: Vec<(String, Json)> = Vec::new();
    let p0 = (String::from_str("method"), Json::Str(req.method.clone()));
    let ghost g0 = p0;
    o.push(p0);
    let p1 = (String::from_str("url"), Json::Str(req.url.clone()));
    let ghost g1 = p1;
    o.push(p1);
    let p2 = (String::from_str("query"), Json::Obj(qv));
    let ghost g2 = p2;
    o.push(p2);
    let p3 = (String::from_str("params"), Json::Obj(pv));
    let ghost g3 = p3;
    o.push(p3);
    let p4 = (String::from_str("headers"), Json::Obj(hv));
    let ghost g4 = p4;
    o.push(p4);
    let b = match &req.body {
        Option::Some(s) => Json::Str(s.clone()),
        Option::None => Json::Null,
    };
    let p5 = (String::from_str("body"), b);
    let ghost g5 = p5;
    o.push(p5);
    let out = Json::Obj(o);
    proof {
        let inner = match out@ {
            JsonV::Obj(s) => s,
            _ => Seq::empty(),
        };
        let target = match spec_req_json(req@) {
            JsonV::Obj(s) => s,
            _ => Seq::empty(),
        };
        assert(o@ =~= seq![g0, g1, g2, g3, g4, g5]);
        assert(json_view(g0.1) == JsonV::Str(req@.method));
        assert(json_view(g1.1) == JsonV::Str(req@.url));
        assert(json_view(g2.1) == JsonV::Obj(kv_obj(req@.query)));
        assert(json_view(g3.1) == JsonV::Obj(kv_obj(req@.params)));
        assert(json_view(g4.1) == JsonV::Obj(kv_obj(req@.headers)));
        let gb = match req@.body {
            Option::Some(bb) => JsonV::Str(bb),
            Option::None => JsonV::Null,
        };
        assert(json_view(g5.1) == gb);
        assert(inner =~= target);
    }
    out
}

/// Encode a response as the JSON value a handler's result stands for.
pub fn res_to_json(res: &Res) -> (j: Json)
    ensures
        j@ == spec_res_json(res@),
{
    let hv = kvs_to_json(&res.headers);
    proof {
        lemma_obj_view(&hv);
    }
    let mut o: Vec<(String, Json)> = Vec::new();
    let p0 = (String::from_str("status"), Json::Num(res.status as i64));
    let ghost g0 = p0;
    o.push(p0);
    let p1 = (String::from_str("headers"), Json::Obj(hv));
    let ghost g1 = p1;
    o.push(p1);
    let b = match &res.body {
        Option::Some(s) => Json::Str(s.clone()),
        Option::None => Json::Null,
    };
    let p2 = (String::from_str("body"), b);
    let ghost g2 = p2;
    o.push(p2);
    let out = Json::Obj(o);
    proof {
        let inner = match out@ {
            JsonV::Obj(s) => s,
            _ => Seq::empty(),
        };
        let target = match spec_res_json(res@) {
            JsonV::Obj(s) => s,
            _ => Seq::empty(),
        };
        assert(o@ =~= seq![g0, g1, g2]);
        assert(json_view(g0.1) == JsonV::Num(res@.status as int));
        assert(json_view(g1.1) == JsonV::Obj(kv_obj(res@.headers)));
        let gb = match res@.body {
            Option::Some(bb) => JsonV::Str(bb),
            Option::None => JsonV::Null,
        };
        assert(json_view(g2.1) == gb);
        assert(inner =~= target);
    }
    out
}

/// Index of the first entry named `k`, mirroring `spec_obj_get`.
fn obj_find(o: &Vec<(String, Json)>, k: &str) -> (r: Option<usize>)
    ensures
        r matches Some(ix) ==> ix < o@.len() && o@[ix as int].0@ == k@ && spec_obj_get(
            obj_view(o@),
            k@,
        ) == Option::Some(o@[ix as int].1@),
        r is None ==> spec_obj_get(obj_view(o@), k@) is None,
{
    let want = crate::text::to_chars(k);
    proof {
        assert(obj_view(o@).skip(0) =~= obj_view(o@));
    }
    let mut i: usize = 0;
    while i < o.len()
        invariant
            i <= o.len(),
            want@ == k@,
            spec_obj_get(obj_view(o@), k@) == spec_obj_get(obj_view(o@).skip(i as int), k@),
        decreases o.len() - i,
    {
        proof {
            assert(obj_view(o@).skip(i as int).len() > 0);
            assert(obj_view(o@).skip(i as int)[0] == obj_view(o@)[i as int]);
            assert(obj_view(o@).skip(i as int).drop_first() =~= obj_view(o@).skip(i + 1));
        }
        if crate::text::chars_eq(&crate::text::to_chars(o[i].0.as_str()), &want) {
            return Option::Some(i);
        }
        i += 1;
    }
    proof {
        assert(obj_view(o@).skip(o@.len() as int) =~= Seq::<(Seq<char>, JsonV)>::empty());
    }
    Option::None
}

proof fn lemma_str_pairs_prefix_none(o: Seq<(Seq<char>, JsonV)>, j: int)
    requires
        0 <= j <= o.len(),
        spec_str_pairs(o.take(j)) is None,
    ensures
        spec_str_pairs(o) is None,
    decreases o.len() - j,
{
    if j < o.len() {
        assert(o.take(j + 1).drop_last() =~= o.take(j));
        lemma_str_pairs_prefix_none(o, j + 1);
    } else {
        assert(o.take(j) =~= o);
    }
}

/// Read an object of string values back as a string map.
fn obj_to_kvs(o: &Vec<(String, Json)>) -> (r: Option<Vec<(String, String)>>)
    ensures
        r matches Some(v) ==> spec_str_pairs(obj_view(o@)) == Option::Some(kvs_view(v@)),
        r is None <==> spec_str_pairs(obj_view(o@)) is None,
{
    let mut v: Vec<(String, String)> = Vec::new();
    let mut i: usize = 0;
    while i < o.len()
        invariant
            i <= o.len(),
            spec_str_pairs(obj_view(o@).take(i as int)) == Option::Some(kvs_view(v@)),
        decreases o.len() - i,
    {
        proof {
            assert(obj_view(o@).take(i + 1).drop_last() =~= obj_view(o@).take(i as int));
            assert(obj_view(o@).take(i + 1).last() == obj_view(o@)[i as int]);
        }
        match &o[i].1 {
            Json::Str(s) => {
                let ghost old_kvs = kvs_view(v@);
                v.push((o[i].0.clone(), s.clone()));
                proof {
                    assert(kvs_view(v@) =~= old_kvs.push(
                        (o@[i as int].0@, obj_view(o@)[i as int].1->Str_0),
                    ));
                }
            },
            _ => {
                proof {
                    assert(spec_str_pairs(obj_view(o@).take(i + 1)) is None);
                    lemma_str_pairs_prefix_none(obj_view(o@), i + 1);
                }
                return Option::None;
            },
        }
        i += 1;
    }
    proof {
        assert(obj_view(o@).take(o@.len() as int) =~= obj_view(o@));
    }
    Option::Some(v)
}

/// Decode the engine's JSON value as a request; mirrors `spec_json_to_req`.
pub fn json_to_req(j: &Json) -> (r: Option<Req>)
    ensures
        r is Some <==> spec_json_to_req(j@) is Some,
        r matches Some(req) ==> Option::Some(req@) == spec_json_to_req(j@),
{
    let o = match j {
        Json::Obj(o) => o,
        _ => {
            return Option::None;
        },
    };
    proof {
        lemma_obj_view(o);
    }
    let m_ix = obj_find(o, "method");
    let u_ix = obj_find(o, "url");
    let q_ix = obj_find(o, "query");
    let p_ix = obj_find(o, "params");
    let h_ix = obj_find(o, "headers");
    let b_ix = obj_find(o, "body");
    match (m_ix, u_ix, q_ix, p_ix, h_ix, b_ix) {
        (
            Option::Some(mi),
            Option::Some(ui),
            Option::Some(qi),
            Option::Some(pi),
            Option::Some(hi),
            Option::Some(bi),
        ) => {
            let method = match &o[mi].1 {
                Json::Str(s) => s.clone(),
                _ => {
                    return Option::None;
                },
            };
            let url = match &o[ui].1 {
                Json::Str(s) => s.clone(),
                _ => {
                    return Option::None;
                },
            };
            let qv = match &o[qi].1 {
                Json::Obj(q) => q,
                _ => {
                    return Option::None;
                },
            };
            let pv = match &o[pi].1 {
                Json::Obj(p) => p,
                _ => {
                    return Option::None;
                },
            };
            let hv = match &o[hi].1 {
                Json::Obj(h) => h,
                _ => {
                    return Option::None;
                },
            };
            proof {
                lemma_obj_view(qv);
                lemma_obj_view(pv);
                lemma_obj_view(hv);
            }
            let query = match obj_to_kvs(qv) {
                Option::Some(v) => v,
                Option::None => {
                    return Option::None;
                },
            };
            let params = match obj_to_kvs(pv) {
                Option::Some(v) => v,
                Option::None => {
                    return Option::None;
                },
            };
            let headers = match obj_to_kvs(hv) {
                Option::Some(v) => v,
                Option::None => {
                    return Option::None;
                },
            };
            let body: Option<String> = match &o[bi].1 {
                Json::Null => Option::None,
                Json::Str(s) => Option::Some(s.clone()),
                _ => {
                    return Option::None;
                },
            };
            Option::Some(Req { method, url, query, params, headers, body })
        },
        _ => Option::None,
    }
}

/// Decode a handler's result value as a response; a wrong shape or a status
/// outside `100..=599` is `InvalidResponseShape`, exactly as
/// `spec_json_to_res` fails.
pub fn json_to_res(j: &Json) -> (r: Result<Res, WorkerError>)
    ensures
        r is Ok <==> spec_json_to_res(j@) is Some,
        r matches Ok(res) ==> Option::Some(res@) == spec_json_to_res(j@),
        r matches Err(e) ==> e@ == crate::error::WorkerErrorV::InvalidResponseShape,
{
    let o = match j {
        Json::Obj(o) => o,
        _ => {
            return Result::Err(WorkerError::InvalidResponseShape);
        },
    };
    proof {
        lemma_obj_view(o);
    }
    let s_ix = obj_find(o, "status");
    let h_ix = obj_find(o, "headers");
    let b_ix = obj_find(o, "body");
    match (s_ix, h_ix, b_ix) {
        (Option::Some(si), Option::Some(hi), Option::Some(bi)) => {
            let status64 = match &o[si].1 {
                Json::Num(n) => *n,
                _ => {
                    return Result::Err(WorkerError::InvalidResponseShape);
                },
            };
            if status64 < 100 || status64 > 599 {
                return Result::Err(WorkerError::InvalidResponseShape);
            }
            let status: u16 = status64 as u16;
            let hv = match &o[hi].1 {
                Json::Obj(h) => h,
                _ => {
                    return Result::Err(WorkerError::InvalidResponseShape);
                },
            };
            proof {
                lemma_obj_view(hv);
            }
            let headers = match obj_to_kvs(hv) {
                Option::Some(v) => v,
                Option::None => {
                    return Result::Err(WorkerError::InvalidResponseShape);
                },
            };
            let body: Option<String> = match &o[bi].1 {
                Json::Null => Option::None,
                Json::Str(s) => Option::Some(s.clone()),
                _ => {
                    return Result::Err(WorkerError::InvalidResponseShape);
                },
            };
            Result::Ok(Res { status, headers, body })
        },
        _ => Result::Err(WorkerError::InvalidResponseShape),
    }
}

} // verus!

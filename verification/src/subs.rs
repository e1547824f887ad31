//! Subscription decoding: a base64 payload becomes a CRLF-separated list of
//! URI lines, and every non-empty line becomes one node (or a placeholder
//! for an unrecognized scheme). Decoding is fail-fast: the first failing
//! line decides the error of the whole body.
use vstd::prelude::*;
use vstd::utf8::{decode_utf8, valid_utf8};
use base64::Engine;
use crate::codec::{bytes_to_string, decode_line, decode_line_spec, pct_bytes, pct_decode_raw};
use crate::node::{NodeDescriptor, NodeV, PipelineError};
use crate::strutil::{lemma_filter_app, lemma_filter_push, opt_view};
use crate::uri::{parse_uri, uri_of};

verus! {

/// The bytes a base64 payload decodes to, when it is valid base64.
pub uninterp spec fn b64_bytes(s: Seq<char>) -> Seq<u8>;

/// Whether a payload is accepted as standard-alphabet base64: acceptance
/// depends on the input characters alone.
pub uninterp spec fn b64_ok(s: Seq<char>) -> bool;

/// Relies on `base64::Engine::decode` with the standard alphabet: whether
/// a payload is accepted, and the decoded bytes on success, depend on the
/// input characters alone.
#[verifier::external_body]
fn b64_decode(s: &str) -> (r: Option<Vec<u8>>)
    ensures
        r is Some <==> b64_ok(s@),
        r matches Some(b) ==> b@ == b64_bytes(s@),
{
    match base64::prelude::BASE64_STANDARD.decode(s) {
        Ok(v) => Some(v),
        Err(_) => None,
    }
}

/// Carriage return and line feed stand at byte offset `k`.
pub open spec fn crlf_at(b: Seq<u8>, k: int) -> bool {
    0 <= k && k + 1 < b.len() && b[k] == 13 && b[k + 1] == 10
}

/// Offset of the first CRLF pair, or -1 when there is none.
pub open spec fn crlf_idx(b: Seq<u8>) -> int
    decreases b.len(),
{
    if b.len() < 2 {
        -1
    } else if b[0] == 13 && b[1] == 10 {
        0
    } else if crlf_idx(b.drop_first()) == -1 {
        -1
    } else {
        crlf_idx(b.drop_first()) + 1
    }
}

/// `crlf_idx` finds exactly the first CRLF pair.
pub proof fn lemma_crlf_idx(b: Seq<u8>)
    ensures
        crlf_idx(b) == -1 ==> forall|k: int| !crlf_at(b, k),
        crlf_idx(b) != -1 ==> 0 <= crlf_idx(b) && crlf_at(b, crlf_idx(b)) && (forall|k: int|
            0 <= k < crlf_idx(b) ==> !crlf_at(b, k)),
    decreases b.len(),
{
    if b.len() < 2 {
    } else if b[0] == 13 && b[1] == 10 {
    } else {
        lemma_crlf_idx(b.drop_first());
        assert forall|k: int| 1 <= k implies crlf_at(b, k) == crlf_at(b.drop_first(), k - 1) by {
            if k + 1 < b.len() {
                assert(b.drop_first()[k - 1] == b[k]);
                assert(b.drop_first()[k] == b[k + 1]);
            }
        }
    }
}

/// The lines of a byte string, split on CRLF; a trailing separator yields a
/// final empty line, as splitting does.
pub open spec fn blines(b: Seq<u8>) -> Seq<Seq<u8>>
    decreases b.len(),
{
    let i = crlf_idx(b);
    if 0 <= i && i + 2 <= b.len() {
        seq![b.subrange(0, i)] + blines(b.subrange(i + 2, b.len() as int))
    } else {
        seq![b]
    }
}

/// The non-empty lines, in order.
pub open spec fn nonempty_lines(ls: Seq<Seq<u8>>) -> Seq<Seq<u8>> {
    ls.filter(|l: Seq<u8>| l.len() > 0)
}

/// Splits a byte string on CRLF pairs.
pub fn split_crlf(b: &Vec<u8>) -> (r: Vec<Vec<u8>>)
    ensures
        r@.map_values(|l: Vec<u8>| l@) == blines(b@),
{
    let mut res: Vec<Vec<u8>> = Vec::new();
    let mut cur: Vec<u8> = Vec::new();
    let mut i: usize = 0;
    let ghost mut start: int = 0;
    proof {
        assert(cur@ =~= b@.subrange(0, 0));
        assert(res@.map_values(|l: Vec<u8>| l@) =~= Seq::<Seq<u8>>::empty());
        assert(b@.subrange(0, b@.len() as int) =~= b@);
    }
    while i < b.len()
        invariant
            0 <= start <= i <= b@.len(),
            start == i - cur@.len(),
            cur@ == b@.subrange(start, i as int),
            forall|k: int| start <= k < i ==> !crlf_at(b@, k),
            blines(b@) == res@.map_values(|l: Vec<u8>| l@) + blines(
                b@.subrange(start, b@.len() as int),
            ),
        decreases b@.len() - i,
    {
        if b[i] == 13 && i + 1 < b.len() && b[i + 1] == 10 {
            proof {
                let sub = b@.subrange(start, b@.len() as int);
                lemma_crlf_idx(sub);
                assert forall|k: int| 0 <= k < sub.len() implies crlf_at(sub, k) == crlf_at(
                    b@,
                    start + k,
                ) by {
                    if k + 1 < sub.len() {
                        assert(sub[k] == b@[start + k]);
                        assert(sub[k + 1] == b@[start + k + 1]);
                    }
                }
                assert(crlf_at(b@, i as int));
                assert(crlf_at(sub, i - start));
                assert(crlf_idx(sub) == i - start);
                assert(sub.subrange(0, i - start) =~= cur@);
                assert(sub.subrange(i - start + 2, sub.len() as int) =~= b@.subrange(
                    i + 2,
                    b@.len() as int,
                ));
                assert(blines(sub) == seq![cur@] + blines(b@.subrange(i + 2, b@.len() as int)));
            }
            res.push(cur);
            cur = Vec::new();
            i = i + 2;
            proof {
                start = i as int;
                assert(cur@ =~= b@.subrange(start, i as int));
                assert(res@.map_values(|l: Vec<u8>| l@) =~= res@.drop_last().map_values(
                    |l: Vec<u8>| l@,
                ).push(res@.last()@));
            }
        } else {
            cur.push(b[i]);
            i = i + 1;
            proof {
                assert(cur@ =~= b@.subrange(start, i as int));
            }
        }
    }
    proof {
        let sub = b@.subrange(start, b@.len() as int);
        lemma_crlf_idx(sub);
        assert forall|k: int| 0 <= k < sub.len() implies crlf_at(sub, k) == crlf_at(
            b@,
            start + k,
        ) by {
            if k + 1 < sub.len() {
                assert(sub[k] == b@[start + k]);
                assert(sub[k + 1] == b@[start + k + 1]);
            }
        }
        assert(crlf_idx(sub) == -1) by {
            if crlf_idx(sub) != -1 {
                assert(crlf_at(sub, crlf_idx(sub)));
            }
        }
        assert(blines(sub) == seq![cur@]);
        assert(sub =~= cur@);
    }
    res.push(cur);
    proof {
        assert(res@.map_values(|l: Vec<u8>| l@) =~= res@.drop_last().map_values(
            |l: Vec<u8>| l@,
        ).push(res@.last()@));
    }
    res
}

/// What one non-empty line yields: `InvalidEncoding` for bytes that are
/// not UTF-8, `MalformedNode` for text that is not a parseable URI, and
/// otherwise the line decoder's result under the display name.
pub open spec fn line_result(l: Seq<u8>, name: Option<Seq<char>>) -> Result<
    Option<NodeV>,
    PipelineError,
> {
    if !valid_utf8(l) {
        Result::Err(PipelineError::InvalidEncoding)
    } else {
        match uri_of(decode_utf8(l)) {
            Option::None => Result::Err(PipelineError::MalformedNode),
            Option::Some(u) => decode_line_spec(u, name),
        }
    }
}

/// Decoding a list of lines, fail-fast: the first failing line decides the
/// error, and on success the slots stand in line order.
pub open spec fn decode_lines_spec(ls: Seq<Seq<u8>>, name: Option<Seq<char>>) -> Result<
    Seq<Option<NodeV>>,
    PipelineError,
>
    decreases ls.len(),
{
    if ls.len() == 0 {
        Result::Ok(Seq::empty())
    } else {
        match line_result(ls[0], name) {
            Result::Err(e) => Result::Err(e),
            Result::Ok(slot) => match decode_lines_spec(ls.drop_first(), name) {
                Result::Err(e) => Result::Err(e),
                Result::Ok(rest) => Result::Ok(seq![slot] + rest),
            },
        }
    }
}

/// What decoding one subscription body yields: `InvalidEncoding` for a
/// payload that is not base64, else the decoding of the non-empty CRLF
/// lines of its bytes.
pub open spec fn decode_subscription_spec(body: Seq<char>, name: Option<Seq<char>>) -> Result<
    Seq<Option<NodeV>>,
    PipelineError,
> {
    if !b64_ok(body) {
        Result::Err(PipelineError::InvalidEncoding)
    } else {
        decode_lines_spec(nonempty_lines(blines(b64_bytes(body))), name)
    }
}

/// View of one output slot.
pub open spec fn opt_node_view(o: Option<NodeDescriptor>) -> Option<NodeV> {
    match o {
        Option::Some(n) => Option::Some(n@),
        Option::None => Option::None,
    }
}

/// View of a subscription decoding result.
pub open spec fn subscription_view(r: Result<Vec<Option<NodeDescriptor>>, PipelineError>) -> Result<
    Seq<Option<NodeV>>,
    PipelineError,
> {
    match r {
        Result::Ok(ns) => Result::Ok(
            ns@.map_values(|o: Option<NodeDescriptor>| opt_node_view(o)),
        ),
        Result::Err(e) => Result::Err(e),
    }
}

/// Decoding a list of lines splits over concatenation, fail-fast.
pub proof fn lemma_decode_lines_app(a: Seq<Seq<u8>>, b: Seq<Seq<u8>>, name: Option<Seq<char>>)
    ensures
        decode_lines_spec(a + b, name) == (match decode_lines_spec(a, name) {
            Result::Err(e) => Result::<Seq<Option<NodeV>>, PipelineError>::Err(e),
            Result::Ok(vs) => match decode_lines_spec(b, name) {
                Result::Err(e) => Result::Err(e),
                Result::Ok(ws) => Result::Ok(vs + ws),
            },
        }),
    decreases a.len(),
{
    if a.len() == 0 {
        assert(a + b =~= b);
        match decode_lines_spec(b, name) {
            Result::Ok(ws) => {
                assert(Seq::<Option<NodeV>>::empty() + ws =~= ws);
            },
            Result::Err(_) => {},
        }
    } else {
        lemma_decode_lines_app(a.drop_first(), b, name);
        assert((a + b)[0] == a[0]);
        assert((a + b).drop_first() =~= a.drop_first() + b);
        match line_result(a[0], name) {
            Result::Ok(slot) => {
                match (decode_lines_spec(a.drop_first(), name), decode_lines_spec(b, name)) {
                    (Result::Ok(ra), Result::Ok(wb)) => {
                        assert(seq![slot] + (ra + wb) =~= (seq![slot] + ra) + wb);
                    },
                    _ => {},
                }
            },
            Result::Err(_) => {},
        }
    }
}

/// Once the line at offset `j` fails, the whole body fails with that
/// line's error.
proof fn lemma_fail_at(
    lsv: Seq<Seq<u8>>,
    j: int,
    name: Option<Seq<char>>,
    e: PipelineError,
    vs: Seq<Option<NodeV>>,
)
    requires
        0 <= j < lsv.len(),
        lsv[j].len() > 0,
        decode_lines_spec(nonempty_lines(lsv.subrange(0, j)), name) == Result::<
            Seq<Option<NodeV>>,
            PipelineError,
        >::Ok(vs),
        line_result(lsv[j], name) == Result::<Option<NodeV>, PipelineError>::Err(e),
    ensures
        decode_lines_spec(nonempty_lines(lsv), name) == Result::<
            Seq<Option<NodeV>>,
            PipelineError,
        >::Err(e),
{
    let pred = |l: Seq<u8>| l.len() > 0;
    let prefix = lsv.subrange(0, j);
    let lv = lsv[j];
    let rest = lsv.subrange(j + 1, lsv.len() as int);
    assert(lsv =~= prefix.push(lv) + rest);
    lemma_filter_app(prefix.push(lv), rest, pred);
    lemma_filter_push(prefix, lv, pred);
    assert(prefix.filter(pred).push(lv) =~= prefix.filter(pred) + seq![lv]);
    lemma_decode_lines_app(prefix.filter(pred), seq![lv], name);
    assert(seq![lv][0] == lv);
    assert(seq![lv].drop_first() =~= Seq::<Seq<u8>>::empty());
    assert(decode_lines_spec(seq![lv], name) == Result::<
        Seq<Option<NodeV>>,
        PipelineError,
    >::Err(e));
    lemma_decode_lines_app(prefix.filter(pred) + seq![lv], rest.filter(pred), name);
    assert(nonempty_lines(lsv) =~= (prefix.filter(pred) + seq![lv]) + rest.filter(pred));
}

/// Decodes one subscription body: base64, then CRLF lines, then one node
/// per non-empty line, in line order, exactly as `decode_subscription_spec`
/// says: `InvalidEncoding` when the payload is not base64 or a line is not
/// UTF-8, `MalformedNode` when a line is not a parseable URI, and the
/// first failing line decides.
pub fn decode_subscription(body: &str, name: &Option<String>) -> (r: Result<
    Vec<Option<NodeDescriptor>>,
    PipelineError,
>)
    ensures
        subscription_view(r) == decode_subscription_spec(body@, opt_view(*name)),
{
    let ghost nm = opt_view(*name);
    let bytes = match b64_decode(body) {
        Some(v) => v,
        None => {
            return Err(PipelineError::InvalidEncoding);
        },
    };
    let lines = split_crlf(&bytes);
    let mut out: Vec<Option<NodeDescriptor>> = Vec::new();
    let mut j: usize = 0;
    proof {
        assert(lines@.map_values(|l: Vec<u8>| l@).subrange(0, 0) =~= Seq::<Seq<u8>>::empty());
        assert(Seq::<Seq<u8>>::empty().filter(|l: Seq<u8>| l.len() > 0) =~= Seq::<
            Seq<u8>,
        >::empty()) by {
            reveal(Seq::filter);
        }
        assert(out@.map_values(|o: Option<NodeDescriptor>| opt_node_view(o)) =~= Seq::<
            Option<NodeV>,
        >::empty());
    }
    while j < lines.len()
        invariant
            j <= lines@.len(),
            nm == opt_view(*name),
            b64_ok(body@),
            bytes@ == b64_bytes(body@),
            lines@.map_values(|l: Vec<u8>| l@) == blines(b64_bytes(body@)),
            decode_lines_spec(
                nonempty_lines(lines@.map_values(|l: Vec<u8>| l@).subrange(0, j as int)),
                nm,
            ) == Result::<Seq<Option<NodeV>>, PipelineError>::Ok(
                out@.map_values(|o: Option<NodeDescriptor>| opt_node_view(o)),
            ),
        decreases lines@.len() - j,
    {
        let ghost lsv = lines@.map_values(|l: Vec<u8>| l@);
        let ghost prefix = lsv.subrange(0, j as int);
        let ghost lv = lsv[j as int];
        let ghost pred = |l: Seq<u8>| l.len() > 0;
        proof {
            assert(lv == lines@[j as int]@);
            assert(lsv.subrange(0, j + 1) =~= prefix.push(lv));
            lemma_filter_push(prefix, lv, pred);
        }
        if lines[j].len() > 0 {
            let text = match bytes_to_string(lines[j].clone()) {
                Some(t) => t,
                None => {
                    proof {
                        lemma_fail_at(
                            lsv,
                            j as int,
                            nm,
                            PipelineError::InvalidEncoding,
                            out@.map_values(|o: Option<NodeDescriptor>| opt_node_view(o)),
                        );
                    }
                    return Err(PipelineError::InvalidEncoding);
                },
            };
            let u = match parse_uri(text.as_str()) {
                Some(u) => u,
                None => {
                    proof {
                        lemma_fail_at(
                            lsv,
                            j as int,
                            nm,
                            PipelineError::MalformedNode,
                            out@.map_values(|o: Option<NodeDescriptor>| opt_node_view(o)),
                        );
                    }
                    return Err(PipelineError::MalformedNode);
                },
            };
            let node = match decode_line(&u, name) {
                Ok(n) => n,
                Err(e) => {
                    proof {
                        lemma_fail_at(
                            lsv,
                            j as int,
                            nm,
                            e,
                            out@.map_values(|o: Option<NodeDescriptor>| opt_node_view(o)),
                        );
                    }
                    return Err(e);
                },
            };
            proof {
                assert(line_result(lv, nm) == Result::<Option<NodeV>, PipelineError>::Ok(
                    opt_node_view(node),
                ));
                assert(prefix.filter(pred).push(lv) =~= prefix.filter(pred) + seq![lv]);
                lemma_decode_lines_app(prefix.filter(pred), seq![lv], nm);
                assert(seq![lv][0] == lv);
                assert(seq![lv].drop_first() =~= Seq::<Seq<u8>>::empty());
                assert(decode_lines_spec(Seq::<Seq<u8>>::empty(), nm) == Result::<
                    Seq<Option<NodeV>>,
                    PipelineError,
                >::Ok(Seq::empty()));
                assert(seq![opt_node_view(node)] + Seq::<Option<NodeV>>::empty()
                    =~= seq![opt_node_view(node)]);
                assert(decode_lines_spec(seq![lv], nm) == Result::<
                    Seq<Option<NodeV>>,
                    PipelineError,
                >::Ok(seq![opt_node_view(node)]));
            }
            let ghost vs0 = out@.map_values(|o: Option<NodeDescriptor>| opt_node_view(o));
            out.push(node);
            proof {
                assert(out@.map_values(|o: Option<NodeDescriptor>| opt_node_view(o)) =~= vs0
                    + seq![opt_node_view(node)]);
            }
        }
        j = j + 1;
    }
    proof {
        assert(lines@.map_values(|l: Vec<u8>| l@).subrange(0, lines@.len() as int) =~= lines@
            .map_values(|l: Vec<u8>| l@));
    }
    Ok(out)
}

/// What the display name of one subscription URL is: its percent-decoded
/// fragment, `None` when the URL has none. `MalformedNode` exactly when
/// the URL does not parse, `InvalidEncoding` exactly when the decoded
/// fragment bytes are not UTF-8.
pub open spec fn display_name_spec(s: Seq<char>) -> Result<Option<Seq<char>>, PipelineError> {
    match uri_of(s) {
        Option::None => Result::Err(PipelineError::MalformedNode),
        Option::Some(u) => match u.fragment {
            Option::None => Result::Ok(Option::None),
            Option::Some(f) => if valid_utf8(pct_bytes(f)) {
                Result::Ok(Option::Some(decode_utf8(pct_bytes(f))))
            } else {
                Result::Err(PipelineError::InvalidEncoding)
            },
        },
    }
}

/// View of a display-name result.
pub open spec fn display_name_view(r: Result<Option<String>, PipelineError>) -> Result<
    Option<Seq<char>>,
    PipelineError,
> {
    match r {
        Result::Ok(o) => Result::Ok(opt_view(o)),
        Result::Err(e) => Result::Err(e),
    }
}

/// The display name of one subscription source, exactly as
/// `display_name_spec` says.
pub fn subscription_display_name(sub_url: &str) -> (r: Result<Option<String>, PipelineError>)
    ensures
        display_name_view(r) == display_name_spec(sub_url@),
{
    match parse_uri(sub_url) {
        None => Err(PipelineError::MalformedNode),
        Some(u) => match &u.fragment {
            None => Ok(None),
            Some(f) => {
                let bs = pct_decode_raw(f.as_str());
                match bytes_to_string(bs) {
                    Some(s) => Ok(Some(s)),
                    None => Err(PipelineError::InvalidEncoding),
                }
            },
        },
    }
}

} // verus!

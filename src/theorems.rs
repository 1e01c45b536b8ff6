use vstd::prelude::*;

use crate::bytes::{
    decimal, is_space, lemma_find_extend, lemma_find_first, occurs_at, trim_end, trim_start,
};
use crate::request::{
    colon, declared_length, head_end, head_headers, header_of_line, header_terminator,
    header_value, missing_body, request_of, Method, RequestModel,
};
use crate::response::{bare, not_found_message, ok_message};
use crate::router::{
    action_for, content_reply, echo_prefix, file_name_of, file_reply, files_prefix,
    files_segment, root_path, route_of, text_plain, trim_slash_end, trim_slash_start,
    user_agent_name, user_agent_path, ActionModel, Route,
};

verus! {

/// A request whose header section `h` ends with its first blank line and
/// declares `Content-Length: n`, followed by `n` body bytes `b` that arrive
/// in two parts split anywhere: after the first part the reader asks for
/// exactly the bytes still missing, and the whole reads back with body `b`,
/// byte for byte.
pub proof fn lemma_body_framing(h: Seq<u8>, b: Seq<u8>, k: int)
    requires
        h.len() >= 4,
        head_end(h) == Some(h.len() - 4),
        declared_length(head_headers(h, h.len() - 4)) == Some(b.len()),
        0 <= k <= b.len(),
    ensures
        missing_body(h + b.subrange(0, k)) == b.len() - k,
        request_of(h) matches Ok(_) ==> request_of(h + b) matches Ok(q) && q.body == b,
{
    let t = h.len() - 4;
    let first = h + b.subrange(0, k);
    let whole = h + b;
    lemma_find_extend(h, b.subrange(0, k), header_terminator(), t);
    lemma_find_extend(h, b, header_terminator(), t);
    lemma_find_extend(h, seq![], header_terminator(), t);
    assert(first.subrange(0, t) =~= h.subrange(0, t));
    assert(whole.subrange(0, t) =~= h.subrange(0, t));
    assert(head_headers(first, t) == head_headers(h, t));
    assert(head_headers(whole, t) == head_headers(h, t));
    assert(whole.subrange(t + 4, t + 4 + b.len()) =~= b);
}

/// "/echo/" followed by `s`.
pub open spec fn echo_path(s: Seq<u8>) -> Seq<u8> {
    echo_prefix() + seq![47u8] + s
}

/// A GET of `/echo/<s>`, where `s` is not empty and holds no slash, is
/// answered with 200, plain text, `Content-Length` the length of `s`, and
/// body `s`.
pub proof fn lemma_echo(q: RequestModel, s: Seq<u8>)
    requires
        q.method == Method::Get,
        q.path == echo_path(s),
        s.len() > 0,
        forall|i: int| 0 <= i < s.len() ==> s[i] != 47u8,
    ensures
        action_for(q) == ActionModel::Reply(content_reply(text_plain(), s)),
        content_reply(text_plain(), s).status_code == 200,
        content_reply(text_plain(), s).headers[1].1 == decimal(s.len()),
        content_reply(text_plain(), s).body == s,
{
    let p = q.path;
    assert(p.subrange(0, 5) =~= echo_prefix());
    assert(p != root_path()) by {
        assert(p.len() != root_path().len());
    }
    assert(route_of(q.method, p) == Route::Echo);
    let rest = seq![101u8, 99u8, 104u8, 111u8, 47u8] + s;
    assert(p.drop_first() =~= rest);
    assert(trim_slash_start(rest) == rest);
    assert(trim_slash_start(p) == rest);
    assert(rest.last() == s.last());
    assert(trim_slash_end(rest) == rest);
    assert forall|k: int| 0 <= k < 4 implies !occurs_at(rest, root_path(), k) by {
        assert(rest.subrange(k, k + 1)[0] == rest[k]);
    }
    assert(rest.subrange(4, 5) =~= root_path());
    lemma_find_first(rest, root_path(), 0, 4);
    assert(rest.subrange(5, rest.len() as int) =~= s);
}

/// A header line `User-Agent: <x>` whose value has no whitespace at either
/// end gives the header `User-Agent` with value `x` exactly.
pub proof fn lemma_user_agent_line(x: Seq<u8>)
    requires
        x.len() > 0 ==> !is_space(x[0]) && !is_space(x.last()),
    ensures
        header_of_line(user_agent_name() + seq![58u8, 32u8] + x) == Some((user_agent_name(), x)),
{
    let l = user_agent_name() + seq![58u8, 32u8] + x;
    assert forall|k: int| 0 <= k < 10 implies !occurs_at(l, colon(), k) by {
        assert(l.subrange(k, k + 1)[0] == l[k]);
    }
    assert(l.subrange(10, 11) =~= colon());
    lemma_find_first(l, colon(), 0, 10);
    assert(l.subrange(0, 10) =~= user_agent_name());
    assert(trim_start(user_agent_name()) == user_agent_name());
    assert(trim_end(user_agent_name()) == user_agent_name());
    let v = l.subrange(11, l.len() as int);
    assert(v =~= seq![32u8] + x);
    assert(v.drop_first() =~= x);
    assert(trim_start(v) == trim_start(x));
    assert(trim_start(x) == x);
    assert(trim_end(x) == x);
}

/// A GET of `/user-agent` whose `User-Agent` header is `x` is answered with
/// 200 and body `x`.
pub proof fn lemma_user_agent(q: RequestModel, x: Seq<u8>)
    requires
        q.method == Method::Get,
        q.path == user_agent_path(),
        header_value(q.headers, user_agent_name()) == Some(x),
    ensures
        action_for(q) == ActionModel::Reply(content_reply(text_plain(), x)),
        content_reply(text_plain(), x).status_code == 200,
        content_reply(text_plain(), x).body == x,
{
    let p = q.path;
    assert(p != root_path()) by {
        assert(p.len() != root_path().len());
    }
    assert(!occurs_at(p, echo_prefix(), 0)) by {
        assert(p.subrange(0, 5)[1] != echo_prefix()[1]);
    }
    assert(route_of(q.method, p) == Route::UserAgent);
}

/// "/files/" followed by `n`.
pub open spec fn files_path(n: Seq<u8>) -> Seq<u8> {
    files_prefix() + seq![47u8] + n
}

proof fn lemma_files_path(m: Method, n: Seq<u8>)
    ensures
        route_of(m, files_path(n)) == (match m {
            Method::Get => Route::GetFile,
            Method::Post => Route::PostFile,
        }),
        file_name_of(files_path(n)) == Some(n),
{
    let p = files_path(n);
    assert(p.subrange(0, 6) =~= files_prefix());
    assert(p != root_path()) by {
        assert(p.len() != root_path().len());
    }
    assert(!occurs_at(p, echo_prefix(), 0)) by {
        assert(p.subrange(0, 5)[1] != echo_prefix()[1]);
    }
    assert(p != user_agent_path()) by {
        assert(p[1] != user_agent_path()[1]);
    }
    assert(!occurs_at(p, files_segment(), 0)) by {
        assert(p.subrange(0, 6)[0] != files_segment()[0]);
    }
    assert(p.subrange(1, 7) =~= files_segment());
    lemma_find_first(p, files_segment(), 0, 1);
    assert(p.subrange(7, p.len() as int) =~= n);
}

/// A POST of body `b` to `/files/<n>` writes `b` to the file `n`; a later GET
/// of `/files/<n>` reads that same file, and what was written comes back
/// with 200 as the body.
pub proof fn lemma_file_round_trip(post: RequestModel, get: RequestModel, n: Seq<u8>, b: Seq<u8>)
    requires
        post.method == Method::Post,
        post.path == files_path(n),
        post.body == b,
        get.method == Method::Get,
        get.path == files_path(n),
    ensures
        action_for(post) == ActionModel::WriteFile(n, b),
        action_for(get) == ActionModel::ReadFile(n),
        file_reply(Some(b)).status_code == 200,
        file_reply(Some(b)).body == b,
{
    lemma_files_path(Method::Post, n);
    lemma_files_path(Method::Get, n);
}

/// A GET of `/files/<n>` when there is no such file is answered with 404
/// and an empty body.
pub proof fn lemma_missing_file(get: RequestModel, n: Seq<u8>)
    requires
        get.method == Method::Get,
        get.path == files_path(n),
    ensures
        action_for(get) == ActionModel::ReadFile(n),
        file_reply(None) == bare(404, not_found_message()),
        file_reply(None).body.len() == 0,
{
    lemma_files_path(Method::Get, n);
}

/// A GET of `/` is answered with 200 and an empty body; a request that no
/// rule matches is answered with 404 and an empty body.
pub proof fn lemma_root_and_unmatched(q: RequestModel)
    ensures
        q.method == Method::Get && q.path == root_path() ==> action_for(q) == ActionModel::Reply(
            bare(200, ok_message()),
        ),
        route_of(q.method, q.path) == Route::NotFound ==> action_for(q) == ActionModel::Reply(
            bare(404, not_found_message()),
        ),
        bare(200, ok_message()).body.len() == 0,
        bare(404, not_found_message()).body.len() == 0,
{
}

} // verus!

//! Laws on how values are seen: no view leaves anything out, or mixes it up.

use vstd::prelude::*;

use crate::client::config;
use crate::client::config::Server;
use crate::engine;
use crate::error;
use crate::error::ApiError;
use crate::error::ApiErrorView;
use crate::keys;
use crate::keys::KeyEntry;
use crate::renderer;
use crate::renderer::Arg;
use crate::streams;
use crate::target;
use crate::text;

verus! {

/// An optional text is seen as the text that it is, where there is one.
pub proof fn law_views_of_optional_texts(s: String, t: &str)
    ensures
        text::opt_text(Some(s)) == Some(s@),
        text::opt_text(None) is None,
        text::opt_str(Some(t)) == Some(t@),
        text::opt_str(None) is None,
{
}

/// A list is seen item by item, in its order.
pub proof fn law_views_of_lists(
    list: Seq<String>,
    pairs: Seq<(String, String)>,
    entries: Seq<KeyEntry>,
    servers: Seq<Server>,
    args: Seq<Arg>,
)
    ensures
        text::texts(list).len() == list.len(),
        forall|i: int| 0 <= i < list.len() ==> #[trigger] text::texts(list)[i] == list[i]@,
        target::pairs_view(pairs).len() == pairs.len(),
        forall|i: int|
            0 <= i < pairs.len() ==> #[trigger] target::pairs_view(pairs)[i] == (
                pairs[i].0@,
                pairs[i].1@,
            ),
        keys::entries(entries).len() == entries.len(),
        forall|i: int| 0 <= i < entries.len() ==> #[trigger] keys::entries(entries)[i]
            == entries[i]@,
        config::servers_view(servers).len() == servers.len(),
        forall|i: int|
            0 <= i < servers.len() ==> #[trigger] config::servers_view(servers)[i] == servers[i]@,
        renderer::args_view(args).len() == args.len(),
        forall|i: int| 0 <= i < args.len() ==> #[trigger] renderer::args_view(args)[i] == args[i]@,
{
}

/// A stored key is seen with each of its fields, and a server too.
pub proof fn law_views_of_records(e: KeyEntry, s: Server)
    ensures
        e@.id == e.id@,
        e@.label == e.label@,
        e@.hash == e.hash@,
        e@.role == e.role,
        e@.created_at == e.created_at,
        e@.disabled == e.disabled,
        s@.name == s.name@,
        s@.url == s.url@,
        s@.key == s.key@,
{
}

/// A result is seen as a success with its bytes, or as the error that it is.
pub proof fn law_views_of_results(
    bytes: Vec<u8>,
    e: ApiError,
    t: String,
    read: &[u8],
)
    ensures
        error::bytes_view(Ok(bytes)) == Ok::<Seq<u8>, ApiErrorView>(bytes@),
        error::bytes_view(Err(e)) == Err::<Seq<u8>, ApiErrorView>(e@),
        engine::decoded_view(Ok(bytes)) == Ok::<Seq<u8>, Seq<char>>(bytes@),
        engine::decoded_view(Err(t)) == Err::<Seq<u8>, Seq<char>>(t@),
        keys::outcome_view(Ok(())) is None,
        keys::outcome_view(Err(t)) == Some(t@),
        streams::read_view(Some(read)) == Some(read@),
        streams::read_view(None) is None,
        e is Timeout <==> e@ is Timeout,
        e matches ApiError::BadRequest(m) ==> e@ == ApiErrorView::BadRequest(m@),
        e matches ApiError::Unauthorized(m) ==> e@ == ApiErrorView::Unauthorized(m@),
        e matches ApiError::Forbidden(m) ==> e@ == ApiErrorView::Forbidden(m@),
        e matches ApiError::Internal(m) ==> e@ == ApiErrorView::Internal(m@),
        e matches ApiError::Render(m) ==> e@ == ApiErrorView::Render(m@),
{
}

/// The bytes of a text are those of its encoding in UTF-8: the text is read back from them,
/// and no two texts have the same.
pub proof fn law_bytes_of_a_text(a: Seq<char>, b: Seq<char>)
    ensures
        vstd::utf8::valid_utf8(text::utf8(a)),
        vstd::utf8::decode_utf8(text::utf8(a)) == a,
        text::utf8(a) == text::utf8(b) ==> a == b,
{
    vstd::utf8::encode_utf8_valid_utf8(a);
    vstd::utf8::encode_utf8_decode_utf8(a);
    vstd::utf8::encode_utf8_decode_utf8(b);
}

} // verus!

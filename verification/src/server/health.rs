//! Liveness probe.

use vstd::prelude::*;

use super::ok_answer;
use crate::json::{Json, JsonView};
#[allow(unused_imports)]
use crate::server;

verus! {

/// The answer of the liveness probe.
pub fn healthz(version: &str) -> (r: Json)
    ensures
        r@ == server::ok_view(
            seq![
                ("service"@, JsonView::Text("tv-obsbroadcast-scheduler"@)),
                ("version"@, JsonView::Text(version@)),
            ],
        ),
{
    let b = ok_answer().with_text("service", "tv-obsbroadcast-scheduler").with_text(
        "version",
        version,
    );
    assert(b@ =~= seq![("ok"@, JsonView::Bool(true))] + seq![
        ("service"@, JsonView::Text("tv-obsbroadcast-scheduler"@)),
        ("version"@, JsonView::Text(version@)),
    ]);
    b.build()
}

} // verus!

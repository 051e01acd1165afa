use vstd::prelude::*;

verus! {

/// How the world's generation work is scheduled. The core always
/// processes islands sequentially in index order and draws from one
/// random stream, so results are seed-reproducible under every model;
/// the concrete dispatch policy of a concurrent model belongs to the
/// host that embeds the library.
#[derive(Clone, Copy, Debug, PartialEq, Eq, Structural)]
pub enum ThreadingModel {
    /// Islands run strictly sequentially within one thread of control.
    Synchronous,
    /// An island's setup and teardown may yield to the host scheduler.
    Cooperative,
    /// Generation work may be dispatched across threads by the host.
    MultiThreaded,
}

} // verus!

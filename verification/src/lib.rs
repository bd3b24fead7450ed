//! Orchestration of a main overlay surface and an auxiliary "organ" surface.
//!
//! The library is the decision core of a desktop shell: it tracks which
//! surface is on screen, enforces that at most one surface is foreground at
//! any instant, plans the ordered attribute mutations that move foreground
//! status from one surface to another, follows an externally managed organ
//! process through a persisted identifier and liveness probes, and builds the
//! HTTP requests that relay observed organ events to a backend. The
//! surrounding application performs the planned window operations, process
//! signals and network calls; every decision it acts on is made here.

pub mod external;
pub mod registry;
pub mod relay;
pub mod shell;
pub mod surface;
pub mod switcher;
pub mod tracker;

pub use external::ExternalOrgan;
pub use registry::Registry;
pub use relay::RelayRequest;
pub use shell::CloseMode;
pub use shell::OrganState;
pub use shell::Shell;
pub use surface::Surface;
pub use surface::SurfaceKind;
pub use switcher::Action;
pub use switcher::SurfaceId;
pub use tracker::Tracker;

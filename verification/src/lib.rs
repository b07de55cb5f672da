//! Terminal video playback core: half-block cell conversion, diff-based
//! terminal rendering, a bounded frame channel, frame geometry (letterbox
//! and fill), and timestamp-driven playback scheduling.

pub mod analyzer;
pub mod cell;
pub mod clock;
pub mod decoder;
pub mod display;
pub mod extractor;
pub mod frame_buffer;
pub mod frame_data;
pub mod frame_manager;
pub mod geometry;
pub mod kitty;
pub mod processor;
pub mod scheduler;
pub mod terminal;
pub mod timer;
pub mod vsync;

pub use analyzer::ContentType;
pub use cell::CellData;
pub use cell::RgbColor;
pub use clock::MasterClock;
pub use decoder::Producer;
pub use display::DisplayManager;
pub use display::DisplayMode;
pub use extractor::extract_frames;
pub use extractor::ExtractError;
pub use frame_buffer::FrameBuffer;
pub use frame_data::FrameData;
pub use frame_manager::FrameManager;
pub use frame_manager::FrameStoreError;
pub use kitty::KittyRenderer;
pub use processor::FrameProcessor;
pub use scheduler::PlaybackScheduler;
pub use scheduler::SchedulerAction;
pub use scheduler::SchedulerPhase;
pub use timer::Timer;
pub use vsync::VSync;
pub use vsync::VSyncStats;

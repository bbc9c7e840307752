//! Building and checking extraction configurations.

use vstd::prelude::*;
use crate::ExtractionConfig;

verus! {

/// The smallest buffer a configuration may ask for (1 KiB).
pub const MIN_BUFFER_SIZE: usize = 1024;

/// The largest buffer a configuration may ask for (10 MiB).
pub const MAX_BUFFER_SIZE: usize = 10485760;

/// The most threads extraction will use.
pub const MAX_THREADS: usize = 32;

/// A configuration is valid when it asks for at least one thread and a
/// buffer between 1 KiB and 10 MiB.
pub open spec fn config_is_valid(c: ExtractionConfig) -> bool {
    c.thread_count > 0 && MIN_BUFFER_SIZE <= c.buffer_size <= MAX_BUFFER_SIZE
}

/// The thread count clamped to 1..=32.
pub open spec fn clamped_threads(thread_count: usize) -> usize {
    if thread_count > MAX_THREADS {
        MAX_THREADS
    } else if thread_count < 1 {
        1
    } else {
        thread_count
    }
}

impl ExtractionConfig {
    /// Create a new configuration with specified thread count
    pub fn with_threads(self, thread_count: usize) -> (r: Self)
        ensures
            r.thread_count == thread_count,
            r.buffer_size == self.buffer_size,
            r.show_progress == self.show_progress,
            r.use_mmap == self.use_mmap,
            r.password == self.password,
    {
        let mut c = self;
        c.thread_count = thread_count;
        c
    }

    /// Create a new configuration with specified buffer size
    pub fn with_buffer_size(self, buffer_size: usize) -> (r: Self)
        ensures
            r.thread_count == self.thread_count,
            r.buffer_size == buffer_size,
            r.show_progress == self.show_progress,
            r.use_mmap == self.use_mmap,
            r.password == self.password,
    {
        let mut c = self;
        c.buffer_size = buffer_size;
        c
    }

    /// Create a new configuration with progress reporting disabled
    pub fn without_progress(self) -> (r: Self)
        ensures
            r.thread_count == self.thread_count,
            r.buffer_size == self.buffer_size,
            !r.show_progress,
            r.use_mmap == self.use_mmap,
            r.password == self.password,
    {
        let mut c = self;
        c.show_progress = false;
        c
    }

    /// Create a new configuration with memory mapping disabled
    pub fn without_mmap(self) -> (r: Self)
        ensures
            r.thread_count == self.thread_count,
            r.buffer_size == self.buffer_size,
            r.show_progress == self.show_progress,
            !r.use_mmap,
            r.password == self.password,
    {
        let mut c = self;
        c.use_mmap = false;
        c
    }

    /// Set password for encrypted archives
    pub fn with_password(self, password: Option<String>) -> (r: Self)
        ensures
            r.thread_count == self.thread_count,
            r.buffer_size == self.buffer_size,
            r.show_progress == self.show_progress,
            r.use_mmap == self.use_mmap,
            r.password == password,
    {
        let mut c = self;
        c.password = password;
        c
    }

    /// Validate configuration parameters: the first problem found, in the
    /// order thread count, too small a buffer, too large a buffer.
    pub fn validate(&self) -> (r: Result<(), String>)
        ensures
            r is Ok <==> config_is_valid(*self),
            self.thread_count == 0 ==> r->Err_0@ == "Thread count must be greater than 0"@,
            self.thread_count > 0 && self.buffer_size < MIN_BUFFER_SIZE
                ==> r->Err_0@ == "Buffer size must be at least 1KB"@,
            self.thread_count > 0 && self.buffer_size > MAX_BUFFER_SIZE
                ==> r->Err_0@ == "Buffer size should not exceed 10MB"@,
    {
        if self.thread_count == 0 {
            return Err("Thread count must be greater than 0".to_owned());
        }
        if self.buffer_size < MIN_BUFFER_SIZE {
            return Err("Buffer size must be at least 1KB".to_owned());
        }
        if self.buffer_size > MAX_BUFFER_SIZE {
            return Err("Buffer size should not exceed 10MB".to_owned());
        }
        Ok(())
    }

    /// Get the effective thread count (clamped to reasonable limits)
    pub fn effective_thread_count(&self) -> (r: usize)
        ensures
            r == clamped_threads(self.thread_count),
            1 <= r <= MAX_THREADS,
    {
        let capped = if self.thread_count < MAX_THREADS { self.thread_count } else { MAX_THREADS };
        if capped > 1 { capped } else { 1 }
    }
}

} // verus!

use vstd::prelude::*;

use crate::intercepted::{spec_get_body, spec_safe_join, InterceptedResponse, RespView};
use crate::text::{split_seq, starts_with_seq};

verus! {

/// One file the sink is to persist: a path under the output root and the
/// decoded text to write there. The write itself is plain I/O and lives
/// with the program around the library.
pub struct FileWrite {
    pub path: String,
    pub text: String,
}

impl View for FileWrite {
    type V = (Seq<char>, Seq<char>);

    open spec fn view(&self) -> (Seq<char>, Seq<char>) {
        (self.path@, self.text@)
    }
}

impl DeepView for FileWrite {
    type V = (Seq<char>, Seq<char>);

    open spec fn deep_view(&self) -> (Seq<char>, Seq<char>) {
        self@
    }
}

/// The sanitized-persistence sink: turns a response into a write under the
/// output root, or nothing when the body cannot be decoded or the join
/// refuses a traversal attempt.
pub struct SaveFileStage {
    pub output_dir: String,
}

/// What the sink does with one response.
pub open spec fn spec_save_action(output: Seq<char>, v: RespView) -> Option<
    (Seq<char>, Seq<char>),
> {
    match spec_get_body(v) {
        Some(text) => match spec_safe_join(output, v) {
            Some(p) => Some((p, text)),
            None => None,
        },
        None => None,
    }
}

impl SaveFileStage {
    pub fn new(output_dir: String) -> (r: Self)
        ensures
            r.output_dir@ == output_dir@,
    {
        Self { output_dir }
    }

    /// Builds the write for one response. Every path handed out starts
    /// with the output root and has no `..` component after it.
    pub fn process(&self, resp: &InterceptedResponse) -> (r: Option<FileWrite>)
        ensures
            match r {
                Some(w) => spec_save_action(self.output_dir@, resp@) == Some((w.path@, w.text@))
                    && starts_with_seq(w.path@, self.output_dir@) && !split_seq(
                    w.path@.skip(self.output_dir@.len() as int + 1),
                    '/',
                ).contains(seq!['.', '.']),
                None => spec_save_action(self.output_dir@, resp@) is None,
            },
    {
        let text = match resp.get_body() {
            Some(t) => t,
            None => {
                return None;
            },
        };
        match resp.safe_join(self.output_dir.as_str()) {
            Some(path) => Some(FileWrite { path, text }),
            None => None,
        }
    }
}

} // verus!

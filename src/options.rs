//! The options of a `run` command: which plugin processes which audio file, where the result
//! goes, and whether it is played back.
use vstd::prelude::*;

verus! {

pub struct RunOptions {
    plugin_path: String,
    input_audio: String,
    output_audio: Option<String>,
    playback: bool,
}

impl RunOptions {
    pub closed spec fn spec_plugin_path(&self) -> Seq<char> {
        self.plugin_path@
    }

    pub closed spec fn spec_input_audio(&self) -> Seq<char> {
        self.input_audio@
    }

    pub closed spec fn spec_output_audio(&self) -> Option<Seq<char>> {
        match &self.output_audio {
            Some(path) => Some(path@),
            None => None,
        }
    }

    pub closed spec fn spec_playback(&self) -> bool {
        self.playback
    }

    pub fn new(
        plugin_path: String,
        input_audio: String,
        output_audio: Option<String>,
        playback: bool,
    ) -> (r: Self)
        ensures
            r.spec_plugin_path() == plugin_path@,
            r.spec_input_audio() == input_audio@,
            r.spec_output_audio() == match output_audio {
                Some(path) => Some(path@),
                None => None::<Seq<char>>,
            },
            r.spec_playback() == playback,
    {
        RunOptions { plugin_path, input_audio, output_audio, playback }
    }

    pub fn plugin_path(&self) -> (r: &str)
        ensures
            r@ == self.spec_plugin_path(),
    {
        self.plugin_path.as_str()
    }

    pub fn input_audio(&self) -> (r: &str)
        ensures
            r@ == self.spec_input_audio(),
    {
        self.input_audio.as_str()
    }

    pub fn output_audio(&self) -> (r: &Option<String>)
        ensures
            match r {
                Some(path) => self.spec_output_audio() == Some(path@),
                None => self.spec_output_audio() is None,
            },
    {
        &self.output_audio
    }

    pub fn playback(&self) -> (r: bool)
        ensures
            r == self.spec_playback(),
    {
        self.playback
    }
}

} // verus!

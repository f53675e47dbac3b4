//! Rendering a score of server commands to a sound file without real time.
use vstd::prelude::*;
use vstd::string::to_string_from_display_ensures;

verus! {

/// A render of a file of commands, with an optional input file, to an
/// output file of `channels` channels. Paths are given as strings.
pub struct Render<'a> {
    pub commands: &'a str,
    pub input: Option<&'a str>,
    pub output: &'a str,
    pub channels: u16,
}

impl<'a> Render<'a> {
    /// The arguments of the server for this render: non-real-time mode, the
    /// commands, the input (`_` for none), the output, 48 kHz, WAV, 24-bit
    /// samples and the number of output channels.
    pub fn arguments(&self) -> (r: Vec<String>)
        ensures
            r@.len() == 9,
            r@[0]@ == "-N"@,
            r@[1]@ == self.commands@,
            r@[2]@ == match self.input {
                Some(p) => p@,
                None => "_"@,
            },
            r@[3]@ == self.output@,
            r@[4]@ == "48000"@,
            r@[5]@ == "WAV"@,
            r@[6]@ == "int24"@,
            r@[7]@ == "-o"@,
            to_string_from_display_ensures::<u16>(&self.channels, r@[8]),
    {
        let mut args: Vec<String> = Vec::new();
        args.push("-N".to_owned());
        args.push(self.commands.to_owned());
        match self.input {
            Some(p) => args.push(p.to_owned()),
            None => args.push("_".to_owned()),
        }
        args.push(self.output.to_owned());
        args.push("48000".to_owned());
        args.push("WAV".to_owned());
        args.push("int24".to_owned());
        args.push("-o".to_owned());
        args.push(self.channels.to_string());
        args
    }
}

} // verus!

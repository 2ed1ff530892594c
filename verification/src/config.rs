//! The resolved build configuration: which engine to run, with which
//! flags, where to put the output, whether to clean up afterwards, and how
//! many jobs may run at once.
use vstd::prelude::*;

use crate::messages::strs_view;

verus! {

/// A resolved configuration, an opaque read-only value to the rest of the
/// library.  The command line below it is rebuilt for every job.
#[derive(Debug)]
pub struct Config {
    pub verbose: bool,
    pub engine: String,
    pub flags: Vec<String>,
    pub build_directory: Option<String>,
    pub clean_build: bool,
    pub max_jobs: usize,
}

pub ghost struct ConfigM {
    pub verbose: bool,
    pub engine: Seq<char>,
    pub flags: Seq<Seq<char>>,
    pub build_directory: Option<Seq<char>>,
    pub clean_build: bool,
    pub max_jobs: int,
}

impl View for Config {
    type V = ConfigM;

    open spec fn view(&self) -> ConfigM {
        ConfigM {
            verbose: self.verbose,
            engine: self.engine@,
            flags: strs_view(self.flags@),
            build_directory: match self.build_directory {
                Some(d) => Some(d@),
                None => None,
            },
            clean_build: self.clean_build,
            max_jobs: self.max_jobs as int,
        }
    }
}

/// The engine invocation a configuration calls for, without the source
/// path: the engine, the configured flags in order, the non-stop
/// interaction flag, and the output directory flag when one is set.
pub open spec fn command_spec(c: ConfigM) -> Seq<Seq<char>> {
    seq![c.engine] + c.flags + seq!["-interaction=nonstopmode"@] + match c.build_directory {
        Some(d) => seq!["-output-directory="@ + d],
        None => Seq::empty(),
    }
}

impl Config {
    /// Builds the engine command line this configuration calls for; the
    /// caller appends the source path.
    pub fn get_command(&self) -> (cmd: Vec<String>)
        ensures
            strs_view(cmd@) == command_spec(self@),
    {
        let mut cmd: Vec<String> = Vec::new();
        cmd.push(self.engine.clone());
        let mut i: usize = 0;
        while i < self.flags.len()
            invariant
                0 <= i <= self.flags@.len(),
                cmd@.len() == 1 + i,
                cmd@[0]@ == self.engine@,
                forall|k: int| 0 <= k < i ==> cmd@[1 + k]@ == self.flags@[k]@,
            decreases self.flags@.len() - i,
        {
            cmd.push(self.flags[i].clone());
            i += 1;
        }
        cmd.push("-interaction=nonstopmode".to_owned());
        match &self.build_directory {
            Some(d) => {
                let mut f = "-output-directory=".to_owned();
                f.append(d.as_str());
                cmd.push(f);
            },
            None => {},
        }
        proof {
            assert(strs_view(cmd@) =~= command_spec(self@));
        }
        cmd
    }
}

impl Default for Config {
    /// The stock configuration: the standard engine, no extra flags, the
    /// working directory, no cleanup, quiet, one job at a time.
    fn default() -> (c: Config)
        ensures
            c@.engine == "pdflatex"@,
            c@.flags.len() == 0,
            c@.build_directory is None,
            !c@.clean_build,
            !c@.verbose,
            c@.max_jobs == 1,
    {
        let c = Config {
            verbose: false,
            engine: "pdflatex".to_owned(),
            flags: Vec::new(),
            build_directory: None,
            clean_build: false,
            max_jobs: 1,
        };
        proof {
            assert(strs_view(c.flags@) =~= Seq::<Seq<char>>::empty());
        }
        c
    }
}

} // verus!

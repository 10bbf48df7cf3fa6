use vstd::prelude::*;

verus! {

/// Configuration used for the matcher.
///
/// This does not include any programmable logic.
#[derive(Debug)]
pub struct Config {
    /// The path to a directory containing matching script files.
    ///
    /// This cannot be left blank.
    pub script_path: String,
    /// The path to a file containing environment variables.
    ///
    /// These are the only variables that will be accessible to scripts. An
    /// absent file means no variables are loaded.
    pub environment_file: String,
}

/// The mathematical model of a configuration: both paths as character
/// sequences.
#[verifier::ext_equal]
pub ghost struct ConfigModel {
    pub script_path: Seq<char>,
    pub environment_file: Seq<char>,
}

impl View for Config {
    type V = ConfigModel;

    open spec fn view(&self) -> ConfigModel {
        ConfigModel {
            script_path: self.script_path@,
            environment_file: self.environment_file@,
        }
    }
}

/// The default configuration: scripts from `scripts`, variables from `.env`.
pub open spec fn default_config() -> ConfigModel {
    ConfigModel { script_path: "scripts"@, environment_file: ".env"@ }
}

impl Clone for Config {
    fn clone(&self) -> (r: Self)
        ensures
            r@ == self@,
    {
        let r = Config {
            script_path: self.script_path.clone(),
            environment_file: self.environment_file.clone(),
        };
        proof {
            assert(r@ =~= self@);
        }
        r
    }
}

impl Default for Config {
    /// The default configuration.
    fn default() -> (r: Self)
        ensures
            r@ == default_config(),
    {
        let r = Config { script_path: "scripts".to_owned(), environment_file: ".env".to_owned() };
        proof {
            assert(r@ =~= default_config());
        }
        r
    }
}

} // verus!

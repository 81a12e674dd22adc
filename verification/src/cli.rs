//! Command-line arguments of the commands, as plain data. The application
//! shell parses them (and adds the parser's derives to its own copies).

use vstd::prelude::*;

verus! {

/// `agents tools` subcommands.
#[derive(Debug, Clone)]
pub enum AgentsToolsAction {
    List,
    Show { tool_id: String },
    Create { config: String },
    Update { tool_id: String, patch: String },
    Delete { tool_id: String, yes: bool },
    Deps { tool_id: String },
}

/// `align` arguments.
#[derive(Debug, Clone)]
pub struct AlignArgs {
    pub audio: String,
    pub transcript: Option<String>,
    pub transcript_file: Option<String>,
    pub enabled_spooled_file: bool,
    pub output: Option<String>,
}

/// `dubbing` subcommands.
#[derive(Debug, Clone)]
pub enum DubbingAction {
    Create(DubbingCreateArgs),
    List { dubbing_status: Option<String>, filter_by_creator: Option<String>, page_size: Option<u32> },
    Show { dubbing_id: String },
    Delete { dubbing_id: String, yes: bool },
    GetAudio { dubbing_id: String, language_code: String, output: Option<String> },
    GetTranscript { dubbing_id: String, language_code: String, format: String, output: Option<String> },
    Resource { action: DubbingResourceAction },
}

/// `dubbing create` arguments.
#[derive(Debug, Clone)]
pub struct DubbingCreateArgs {
    pub target_lang: String,
    pub file: Option<String>,
    pub source_url: Option<String>,
    pub source_lang: Option<String>,
    pub num_speakers: Option<u32>,
    pub watermark: Option<bool>,
    pub start_time: Option<u32>,
    pub end_time: Option<u32>,
    pub highest_resolution: Option<bool>,
    pub drop_background_audio: Option<bool>,
    pub use_profanity_filter: Option<bool>,
    pub dubbing_studio: Option<bool>,
    pub disable_voice_cloning: Option<bool>,
    pub mode: Option<String>,
}

/// `dubbing resource` subcommands (Studio-mode dubs).
#[derive(Debug, Clone)]
pub enum DubbingResourceAction {
    Transcribe { dubbing_id: String, patch: Option<String> },
    Translate { dubbing_id: String, patch: Option<String> },
    Dub { dubbing_id: String, patch: Option<String> },
    Render { dubbing_id: String, language_code: String, patch: Option<String> },
    MigrateSegments { dubbing_id: String, patch: Option<String> },
}

/// `dict` (pronunciation dictionary) subcommands.
#[derive(Debug, Clone)]
pub enum DictAction {
    List { cursor: Option<String>, page_size: Option<u32>, search: Option<String> },
    AddFile { name: String, file: String, description: Option<String>, workspace_access: Option<String> },
    AddRules {
        name: String,
        description: Option<String>,
        workspace_access: Option<String>,
        rule: Vec<String>,
        alias_rule: Vec<String>,
    },
    Show { id: String },
    Update { id: String, name: Option<String>, description: Option<String>, archive: bool },
    Download { id: String, version: Option<String>, output: Option<String> },
    SetRules {
        id: String,
        rule: Vec<String>,
        alias_rule: Vec<String>,
        case_sensitive: Option<bool>,
        word_boundaries: Option<bool>,
    },
    AddRulesTo { id: String, rule: Vec<String>, alias_rule: Vec<String> },
    RemoveRules { id: String, word: Vec<String> },
}

/// `music` subcommands.
#[derive(Debug, Clone)]
pub enum MusicAction {
    Compose(ComposeArgs),
    Plan { prompt: String, length_ms: Option<u32>, model: Option<String> },
    Detailed(DetailedArgs),
    Stream(StreamArgs),
    Upload(UploadArgs),
    StemSeparation(StemSeparationArgs),
    VideoToMusic(VideoToMusicArgs),
}

/// `music compose` arguments.
#[derive(Debug, Clone)]
pub struct ComposeArgs {
    pub prompt: Option<String>,
    pub length_ms: Option<u32>,
    pub format: Option<String>,
    pub output: Option<String>,
    pub composition_plan: Option<String>,
    pub model: Option<String>,
    pub force_instrumental: bool,
    pub seed: Option<u32>,
    pub respect_sections_durations: bool,
    pub store_for_inpainting: bool,
    pub sign_with_c2pa: bool,
}

/// `music detailed` arguments.
#[derive(Debug, Clone)]
pub struct DetailedArgs {
    pub prompt: Option<String>,
    pub length_ms: Option<u32>,
    pub format: Option<String>,
    pub output: Option<String>,
    pub save_metadata: Option<String>,
    pub composition_plan: Option<String>,
    pub model: Option<String>,
    pub force_instrumental: bool,
    pub seed: Option<u32>,
    pub respect_sections_durations: bool,
    pub store_for_inpainting: bool,
    pub sign_with_c2pa: bool,
}

/// `music stream` arguments.
#[derive(Debug, Clone)]
pub struct StreamArgs {
    pub prompt: Option<String>,
    pub length_ms: Option<u32>,
    pub format: Option<String>,
    pub output: Option<String>,
    pub composition_plan: Option<String>,
    pub model: Option<String>,
    pub force_instrumental: bool,
    pub seed: Option<u32>,
    pub respect_sections_durations: bool,
    pub store_for_inpainting: bool,
    pub sign_with_c2pa: bool,
}

/// `music upload` arguments.
#[derive(Debug, Clone)]
pub struct UploadArgs {
    pub file: String,
    pub name: Option<String>,
    pub composition_plan: Option<String>,
}

/// `music stem-separation` arguments.
#[derive(Debug, Clone)]
pub struct StemSeparationArgs {
    /// A local audio file or a `song_id` from `music upload`.
    pub source: String,
    pub output_dir: Option<String>,
    pub stems: Vec<String>,
}

/// `music video-to-music` arguments.
#[derive(Debug, Clone)]
pub struct VideoToMusicArgs {
    pub file: String,
    pub description: Option<String>,
    pub tags: Vec<String>,
    pub model: Option<String>,
    pub format: Option<String>,
    pub output: Option<String>,
}

/// `phone` subcommands.
#[derive(Debug, Clone)]
pub enum PhoneAction {
    List,
    Call { agent_id: String, from_id: String, to: String, dynamic_variables: Option<String> },
    Batch { action: PhoneBatchAction },
    Whatsapp { action: PhoneWhatsappAction },
}

/// `phone batch` subcommands.
#[derive(Debug, Clone)]
pub enum PhoneBatchAction {
    Submit {
        agent_id: String,
        phone_number_id: String,
        recipients: String,
        name: Option<String>,
        scheduled_time_unix: Option<i64>,
    },
    List { page_size: Option<u32>, cursor: Option<String>, status: Option<String>, agent_id: Option<String> },
    Show { batch_id: String },
    Cancel { batch_id: String },
    Retry { batch_id: String },
    Delete { batch_id: String, yes: bool },
}

/// `phone whatsapp` subcommands.
#[derive(Debug, Clone)]
pub enum PhoneWhatsappAction {
    Call { agent_id: String, whatsapp_account: String, recipient: String },
    Message {
        agent_id: String,
        whatsapp_account: String,
        recipient: String,
        text: Option<String>,
        template: Option<String>,
    },
    Accounts { action: PhoneWhatsappAccountsAction },
}

/// `phone whatsapp accounts` subcommands.
#[derive(Debug, Clone)]
pub enum PhoneWhatsappAccountsAction {
    List,
    Show { account_id: String },
    Update { account_id: String, patch: String },
    Delete { account_id: String, yes: bool },
}

/// `doctor` arguments.
#[derive(Debug, Clone)]
pub struct DoctorArgs {
    pub skip: Vec<String>,
    pub timeout_ms: u64,
}

} // verus!

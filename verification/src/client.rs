//! What kind of account a client signs in as.

use vstd::prelude::*;
use vstd::string::*;
use crate::di::Endpoint;
use crate::error_handler::BoxedErrorHandler;
use crate::filters::{Command, CommandView};
use crate::handler::command_views;
use crate::text::{is_longer_than_a_byte, pieces, split, takes_more_than_a_byte, texts};

verus! {

/// Client type.
#[derive(Debug, PartialEq)]
pub enum ClientType {
    /// Bot client, holds bot token.
    Bot(String),
    /// User client, holds user phone number.
    User(String),
}

impl ClientType {
    /// Whether the client signs in as a bot.
    pub fn is_bot(&self) -> (b: bool)
        ensures
            b == (*self is Bot),
    {
        match self {
            ClientType::Bot(_) => true,
            ClientType::User(_) => false,
        }
    }

    /// What the client signs in with: the token of a bot, the phone number of
    /// a user.
    pub fn credential(&self) -> (text: &str)
        ensures
            text@ == (match *self {
                ClientType::Bot(token) => token@,
                ClientType::User(number) => number@,
            }),
    {
        match self {
            ClientType::Bot(token) => token.as_str(),
            ClientType::User(number) => number.as_str(),
        }
    }
}

impl Clone for ClientType {
    fn clone(&self) -> (r: ClientType)
        ensures
            r == *self,
    {
        match self {
            ClientType::Bot(token) => ClientType::Bot(token.clone()),
            ClientType::User(number) => ClientType::User(number.clone()),
        }
    }
}

impl Default for ClientType {
    fn default() -> (client_type: ClientType)
        ensures
            client_type is Bot,
            client_type->Bot_0@ == Seq::<char>::empty(),
    {
        ClientType::Bot(String::new())
    }
}

/// The session file that a client uses where none was set.
pub open spec fn default_session_file() -> Seq<char> {
    "./ferogram.session"@
}

/// What a client is built from.
pub struct ClientBuilder {
    /// What kind of account the client signs in as.
    pub client_type: ClientType,
    /// The developer's API ID.
    pub api_id: i32,
    /// The developer's API hash.
    pub api_hash: String,
    /// The path of the session file.
    pub session_file: Option<String>,
    /// The device model, where it is not left to the client library.
    pub device_model: Option<String>,
    /// The system version, where it is not left to the client library.
    pub system_version: Option<String>,
    /// The app version, where it is not left to the client library.
    pub app_version: Option<String>,
    /// The language code, where it is not left to the client library.
    pub lang_code: Option<String>,
    /// Whether the client asks for the updates that it missed while it was
    /// away.
    pub catch_up: bool,
    /// Up to how many seconds of a flood wait the client sleeps through, where
    /// that is not left to the client library.
    pub flood_sleep_threshold: Option<u32>,
    /// How many updates may wait to be handled: `Some(None)` for any number,
    /// `None` where that is left to the client library.
    pub update_queue_limit: Option<Option<usize>>,
    /// Whether the commands of the bot are told to Telegram when it starts.
    pub set_bot_commands: bool,
    /// Whether the client waits for `Ctrl + C` once it runs.
    pub wait_for_ctrl_c: bool,
    /// What is told of the errors that no handler mended.
    pub err_handler: Option<BoxedErrorHandler>,
    /// What runs when the client exits.
    pub exit_handler: Option<Endpoint>,
    /// What runs when the client is ready to receive updates.
    pub ready_handler: Option<Endpoint>,
}

impl ClientBuilder {
    /// A builder with nothing set, for the client type `client_type`.
    pub fn new(client_type: ClientType) -> (builder: ClientBuilder)
        ensures
            builder.client_type == client_type,
            builder.api_id == 0,
            builder.api_hash@ == Seq::<char>::empty(),
            builder.session_file is None,
            builder.device_model is None,
            builder.system_version is None,
            builder.app_version is None,
            builder.lang_code is None,
            !builder.catch_up,
            builder.flood_sleep_threshold is None,
            builder.update_queue_limit is None,
            !builder.set_bot_commands,
            !builder.wait_for_ctrl_c,
            builder.err_handler is None,
            builder.exit_handler is None,
            builder.ready_handler is None,
    {
        ClientBuilder {
            client_type,
            api_id: 0,
            api_hash: String::new(),
            session_file: None,
            device_model: None,
            system_version: None,
            app_version: None,
            lang_code: None,
            catch_up: false,
            flood_sleep_threshold: None,
            update_queue_limit: None,
            set_bot_commands: false,
            wait_for_ctrl_c: false,
            err_handler: None,
            exit_handler: None,
            ready_handler: None,
        }
    }

    /// Creates a new builder for a bot client.
    pub fn bot(token: &str) -> (builder: ClientBuilder)
        ensures
            builder.client_type is Bot,
            builder.client_type->Bot_0@ == token@,
            builder.api_id == 0,
            builder.api_hash@ == Seq::<char>::empty(),
            builder.session_file is None,
            !builder.set_bot_commands,
            !builder.wait_for_ctrl_c,
            builder.err_handler is None,
            builder.exit_handler is None,
            builder.ready_handler is None,
    {
        ClientBuilder::new(ClientType::Bot(String::from_str(token)))
    }

    /// Creates a new builder for a user client.
    pub fn user(phone_number: &str) -> (builder: ClientBuilder)
        ensures
            builder.client_type is User,
            builder.client_type->User_0@ == phone_number@,
            builder.api_id == 0,
            builder.api_hash@ == Seq::<char>::empty(),
            builder.session_file is None,
            !builder.set_bot_commands,
            !builder.wait_for_ctrl_c,
            builder.err_handler is None,
            builder.exit_handler is None,
            builder.ready_handler is None,
    {
        ClientBuilder::new(ClientType::User(String::from_str(phone_number)))
    }

    /// The builder that the settings of a process make: for a bot where a
    /// token is given, else for a user where a phone number is given, with the
    /// API ID and the API hash. `None` where neither a token nor a phone
    /// number, no API ID or no API hash is given.
    pub fn from_settings(
        bot_token: Option<&str>,
        phone_number: Option<&str>,
        api_id: Option<i32>,
        api_hash: Option<&str>,
    ) -> (builder: Option<ClientBuilder>)
        ensures
            builder is Some == ((bot_token is Some || phone_number is Some) && api_id is Some && api_hash is Some),
            builder is Some ==> {
                &&& builder->0.api_id == api_id->0
                &&& builder->0.api_hash@ == api_hash->0@
                &&& bot_token is Some ==> builder->0.client_type is Bot && builder->0.client_type->Bot_0@
                    == bot_token->0@
                &&& bot_token is None ==> builder->0.client_type is User && builder->0.client_type->User_0@
                    == phone_number->0@
            },
    {
        let start = match bot_token {
            Some(token) => ClientBuilder::bot(token),
            None => match phone_number {
                Some(number) => ClientBuilder::user(number),
                None => {
                    return None;
                },
            },
        };
        match (api_id, api_hash) {
            (Some(id), Some(hash)) => Some(start.api_id(id).api_hash(hash)),
            _ => None,
        }
    }

    /// The path of the session file: the one that was set, else
    /// `./ferogram.session`.
    pub fn session_path(&self) -> (path: String)
        ensures
            path@ == (match self.session_file {
                Some(set) => set@,
                None => default_session_file(),
            }),
    {
        match &self.session_file {
            Some(set) => set.clone(),
            None => String::from_str("./ferogram.session"),
        }
    }

    /// Sets the API ID.
    pub fn api_id(self, api_id: i32) -> (builder: ClientBuilder)
        ensures
            builder == (ClientBuilder { api_id, ..self }),
    {
        let mut builder = self;
        builder.api_id = api_id;
        builder
    }

    /// Sets the API hash.
    pub fn api_hash(self, api_hash: &str) -> (builder: ClientBuilder)
        ensures
            builder.api_hash@ == api_hash@,
            builder == (ClientBuilder { api_hash: builder.api_hash, ..self }),
    {
        let mut builder = self;
        builder.api_hash = String::from_str(api_hash);
        builder
    }

    /// Sets the session file path.
    pub fn session_file(self, path: &str) -> (builder: ClientBuilder)
        ensures
            builder.session_file is Some && builder.session_file->0@ == path@,
            builder == (ClientBuilder { session_file: builder.session_file, ..self }),
    {
        let mut builder = self;
        builder.session_file = Some(String::from_str(path));
        builder
    }

    /// Sets the device model.
    pub fn device_model(self, device_model: &str) -> (builder: ClientBuilder)
        ensures
            builder.device_model is Some && builder.device_model->0@ == device_model@,
            builder == (ClientBuilder { device_model: builder.device_model, ..self }),
    {
        let mut builder = self;
        builder.device_model = Some(String::from_str(device_model));
        builder
    }

    /// Sets the system version.
    pub fn system_version(self, system_version: &str) -> (builder: ClientBuilder)
        ensures
            builder.system_version is Some && builder.system_version->0@ == system_version@,
            builder == (ClientBuilder { system_version: builder.system_version, ..self }),
    {
        let mut builder = self;
        builder.system_version = Some(String::from_str(system_version));
        builder
    }

    /// Sets the app version.
    pub fn app_version(self, app_version: &str) -> (builder: ClientBuilder)
        ensures
            builder.app_version is Some && builder.app_version->0@ == app_version@,
            builder == (ClientBuilder { app_version: builder.app_version, ..self }),
    {
        let mut builder = self;
        builder.app_version = Some(String::from_str(app_version));
        builder
    }

    /// Sets the language code.
    pub fn lang_code(self, lang_code: &str) -> (builder: ClientBuilder)
        ensures
            builder.lang_code is Some && builder.lang_code->0@ == lang_code@,
            builder == (ClientBuilder { lang_code: builder.lang_code, ..self }),
    {
        let mut builder = self;
        builder.lang_code = Some(String::from_str(lang_code));
        builder
    }

    /// Sets if the client should catch up on updates.
    pub fn catch_up(self, value: bool) -> (builder: ClientBuilder)
        ensures
            builder == (ClientBuilder { catch_up: value, ..self }),
    {
        let mut builder = self;
        builder.catch_up = value;
        builder
    }

    /// Sets the flood sleep threshold.
    pub fn flood_sleep_threshold(self, flood_sleep_threshold: u32) -> (builder: ClientBuilder)
        ensures
            builder == (ClientBuilder { flood_sleep_threshold: Some(flood_sleep_threshold), ..self }),
    {
        let mut builder = self;
        builder.flood_sleep_threshold = Some(flood_sleep_threshold);
        builder
    }

    /// Sets the update queue limit.
    pub fn update_queue_limit(self, update_queue_limit: Option<usize>) -> (builder: ClientBuilder)
        ensures
            builder == (ClientBuilder { update_queue_limit: Some(update_queue_limit), ..self }),
    {
        let mut builder = self;
        builder.update_queue_limit = Some(update_queue_limit);
        builder
    }

    /// Waits for a `Ctrl + C` signal to close the connection and exit the
    /// app.
    pub fn wait_for_ctrl_c(self) -> (builder: ClientBuilder)
        ensures
            builder == (ClientBuilder { wait_for_ctrl_c: true, ..self }),
    {
        let mut builder = self;
        builder.wait_for_ctrl_c = true;
        builder
    }

    /// Sets the bot commands when the client starts.
    pub fn set_bot_commands(self) -> (builder: ClientBuilder)
        ensures
            builder == (ClientBuilder { set_bot_commands: true, ..self }),
    {
        let mut builder = self;
        builder.set_bot_commands = true;
        builder
    }

    /// Sets the global error handler.
    pub fn on_err(self, handler: BoxedErrorHandler) -> (builder: ClientBuilder)
        ensures
            builder == (ClientBuilder { err_handler: Some(handler), ..self }),
    {
        let mut builder = self;
        builder.err_handler = Some(handler);
        builder
    }

    /// Sets the exit handler.
    pub fn on_exit(self, handler: Endpoint) -> (builder: ClientBuilder)
        ensures
            builder == (ClientBuilder { exit_handler: Some(handler), ..self }),
    {
        let mut builder = self;
        builder.exit_handler = Some(handler);
        builder
    }

    /// Sets the ready handler.
    pub fn on_ready(self, handler: Endpoint) -> (builder: ClientBuilder)
        ensures
            builder == (ClientBuilder { ready_handler: Some(handler), ..self }),
    {
        let mut builder = self;
        builder.ready_handler = Some(handler);
        builder
    }
}

impl Default for ClientBuilder {
    fn default() -> (builder: ClientBuilder)
        ensures
            builder.client_type is Bot,
            builder.client_type->Bot_0@ == Seq::<char>::empty(),
            builder.api_id == 0,
            builder.api_hash@ == Seq::<char>::empty(),
            builder.session_file is None,
            !builder.set_bot_commands,
            !builder.wait_for_ctrl_c,
    {
        ClientBuilder::new(ClientType::default())
    }
}

/// A command as a bot tells it to Telegram.
#[derive(Debug, PartialEq)]
pub struct BotCommand {
    /// The command, without a prefix.
    pub command: String,
    /// What the command is for.
    pub description: String,
}

/// What a command that a bot tells to Telegram reads as.
pub struct BotCommandView {
    /// The command, without a prefix.
    pub command: Seq<char>,
    /// What the command is for.
    pub description: Seq<char>,
}

impl View for BotCommand {
    type V = BotCommandView;

    open spec fn view(&self) -> BotCommandView {
        BotCommandView { command: self.command@, description: self.description@ }
    }
}

/// What each of a list of commands reads as.
pub open spec fn bot_command_views(list: Seq<BotCommand>) -> Seq<BotCommandView> {
    Seq::new(list.len(), |i: int| list[i]@)
}

/// Of `parts`, from the `i`-th on, those that take more than a byte, each
/// as a command that is for `description`.
pub open spec fn named(parts: Seq<Seq<char>>, description: Seq<char>, i: int) -> Seq<BotCommandView>
    decreases parts.len() - i,
{
    if i < 0 || i >= parts.len() {
        Seq::empty()
    } else {
        (if takes_more_than_a_byte(parts[i]) {
            seq![BotCommandView { command: parts[i], description }]
        } else {
            Seq::empty()
        }) + named(parts, description, i + 1)
    }
}

/// The commands that a bot tells to Telegram for the command filters from
/// the `i`-th on: for each filter, the names between the `|` of its command
/// that take more than a byte, each with the description of the filter.
pub open spec fn told(commands: Seq<CommandView>, i: int) -> Seq<BotCommandView>
    decreases commands.len() - i,
{
    if i < 0 || i >= commands.len() {
        Seq::empty()
    } else {
        named(pieces(commands[i].command, '|'), commands[i].description, 0) + told(commands, i + 1)
    }
}

/// The commands that a bot tells to Telegram for its command filters.
pub fn bot_commands(commands: &Vec<Command>) -> (list: Vec<BotCommand>)
    ensures
        bot_command_views(list@) == told(command_views(commands@), 0),
{
    let mut list: Vec<BotCommand> = Vec::new();
    let ghost all = command_views(commands@);
    let mut i: usize = 0;
    assert(bot_command_views(list@) + told(all, 0) =~= told(all, 0));
    while i < commands.len()
        invariant
            i <= commands.len(),
            all == command_views(commands@),
            bot_command_views(list@) + told(all, i as int) == told(all, 0),
        decreases commands.len() - i,
    {
        let parts = split(commands[i].command.as_str(), '|');
        let ghost before = bot_command_views(list@);
        let ghost description = commands@[i as int].description@;
        assert(all[i as int] == commands@[i as int]@);
        let mut j: usize = 0;
        assert(bot_command_views(list@) + named(texts(parts@), description, 0) =~= before + named(
            texts(parts@),
            description,
            0,
        ));
        while j < parts.len()
            invariant
                j <= parts.len(),
                i < commands.len(),
                description == commands@[i as int].description@,
                bot_command_views(list@) + named(texts(parts@), description, j as int) == before + named(
                    texts(parts@),
                    description,
                    0,
                ),
            decreases parts.len() - j,
        {
            let ghost so_far = bot_command_views(list@);
            if is_longer_than_a_byte(parts[j].as_str()) {
                list.push(BotCommand { command: parts[j].clone(), description: commands[i].description.clone() });
                assert(bot_command_views(list@) =~= so_far + seq![
                    BotCommandView { command: parts@[j as int]@, description },
                ]);
            }
            assert(bot_command_views(list@) + named(texts(parts@), description, j + 1) =~= so_far + named(
                texts(parts@),
                description,
                j as int,
            ));
            j = j + 1;
        }
        proof {
            assert(bot_command_views(list@) + named(texts(parts@), description, j as int) =~= bot_command_views(
                list@,
            ));
            assert(bot_command_views(list@) + told(all, i + 1) =~= before + told(all, i as int));
        }
        i = i + 1;
    }
    assert(bot_command_views(list@) + told(all, i as int) =~= bot_command_views(list@));
    list
}

} // verus!

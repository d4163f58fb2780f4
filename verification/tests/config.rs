use panewatch::config::{
    BufferConfig, Config, ProjectSource, ServerConfig, TmuxConfig, TradesConfig,
};

fn config(data_dir: &str) -> Config {
    Config {
        server: ServerConfig {
            host: "127.0.0.1".to_string(),
            port: 8080,
            static_dir: "static".to_string(),
        },
        tmux: TmuxConfig {
            pipe_dir: "/tmp/panes".to_string(),
            discovery_interval_ms: 1000,
            sessions_to_watch: vec!["bot".to_string()],
            initial_panes: vec![],
        },
        buffer: BufferConfig { replay_lines: 500, channel_capacity: 1024, pipe_channel_capacity: 64 },
        trades: TradesConfig { data_dir: data_dir.to_string() },
    }
}

#[test]
fn pipe_dir_is_the_configured_one() {
    assert_eq!(config("x").pipe_dir(), "/tmp/panes");
}

#[test]
fn trades_dir_needs_a_value() {
    assert_eq!(config("data").trades_data_dir_for(ProjectSource::Rust).as_deref(), Some("data"));
    assert_eq!(config("").trades_data_dir_for(ProjectSource::Python), None);
}

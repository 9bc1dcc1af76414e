use sol_dispatch::address::{AddressError, WalletListError};
use sol_dispatch::balance::{batch_bounds, default_batch_size, default_rpc_url, Config};
use sol_dispatch::cli::{parse_args, CliError, Commands};
use sol_dispatch::watcher::{
    check_balance, forwarded_slot, Config as WatcherConfig, GeyserSubscriber, InsufficientBalance,
    StreamUpdate,
};

fn words(ws: &[&str]) -> Vec<String> {
    ws.iter().map(|w| w.to_string()).collect()
}

fn checker(wallets: &[&str]) -> Config {
    Config { wallets: words(wallets), batch_size: default_batch_size(), rpc_url: default_rpc_url() }
}

#[test]
fn balance_defaults() {
    assert_eq!(default_batch_size(), 25);
    assert_eq!(default_rpc_url(), "https://api.mainnet-beta.solana.com");
}

#[test]
fn wallet_list_validation() {
    assert_eq!(checker(&[]).validate(), Err(WalletListError::Empty));
    assert_eq!(
        checker(&["11111111111111111111111111111111", "SysvarC1ock11111111111111111111111111111111"])
            .validate(),
        Ok(())
    );
    assert_eq!(
        checker(&["11111111111111111111111111111111", "bad0", "1"]).validate(),
        Err(WalletListError::BadAddress { index: 1, error: AddressError::Invalid })
    );
    assert_eq!(
        checker(&["1"]).validate(),
        Err(WalletListError::BadAddress { index: 0, error: AddressError::WrongSize })
    );
}

#[test]
fn batches_cover_the_list() {
    assert_eq!(batch_bounds(5, 2), vec![(0, 2), (2, 4), (4, 5)]);
    assert_eq!(batch_bounds(4, 2), vec![(0, 2), (2, 4)]);
    assert_eq!(batch_bounds(3, 25), vec![(0, 3)]);
    assert_eq!(batch_bounds(0, 3), vec![]);
}

#[test]
fn watcher_command_line() {
    match parse_args(&words(&["start"])).ok().unwrap().command {
        Commands::Start { config } => assert_eq!(config, "config.yaml"),
        _ => panic!("expected start"),
    }
    match parse_args(&words(&["start", "--config", "my.yaml"])).ok().unwrap().command {
        Commands::Start { config } => assert_eq!(config, "my.yaml"),
        _ => panic!("expected start"),
    }
    match parse_args(&words(&["start", "--config=other.yaml"])).ok().unwrap().command {
        Commands::Start { config } => assert_eq!(config, "other.yaml"),
        _ => panic!("expected start"),
    }
    match parse_args(&words(&["generate-config", "-o", "out.yaml"])).ok().unwrap().command {
        Commands::GenerateConfig { output } => assert_eq!(output, "out.yaml"),
        _ => panic!("expected generate-config"),
    }
    match parse_args(&words(&["generate-config"])).ok().unwrap().command {
        Commands::GenerateConfig { output } => assert_eq!(output, "config.yaml"),
        _ => panic!("expected generate-config"),
    }
}

#[test]
fn watcher_command_line_errors() {
    assert_eq!(parse_args(&words(&[])).err(), Some(CliError::MissingCommand));
    assert_eq!(parse_args(&words(&["stop"])).err(), Some(CliError::UnknownCommand));
    assert_eq!(parse_args(&words(&["start", "-c"])).err(), Some(CliError::MissingValue));
    assert_eq!(parse_args(&words(&["start", "-o", "x"])).err(), Some(CliError::UnknownArgument));
    assert_eq!(
        parse_args(&words(&["start", "-c", "a", "--config", "b"])).err(),
        Some(CliError::DuplicateArgument)
    );
}

#[test]
fn watcher_balance_and_stream() {
    assert_eq!(check_balance(10, 10), Ok(()));
    assert_eq!(
        check_balance(9, 10),
        Err(InsufficientBalance { balance_lamports: 9, needed_lamports: 10 })
    );
    assert_eq!(forwarded_slot(&StreamUpdate::Block(77)), Some(77));
    assert_eq!(forwarded_slot(&StreamUpdate::Other), None);
    assert_eq!(forwarded_slot(&StreamUpdate::Error), None);
    let g = GeyserSubscriber::new("https://grpc.example".to_string(), "SECRET-REDACTED".to_string());
    assert_eq!(g.endpoint, "https://grpc.example");
    assert_eq!(g.token, "SECRET-REDACTED");
}

#[test]
fn watcher_destination() {
    let mut c = WatcherConfig {
        geyser_endpoint: String::new(),
        geyser_token: String::new(),
        keypair_path: String::new(),
        destination_wallet: "11111111111111111111111111111111".to_string(),
        sol_amount: "0.001".to_string(),
        solana_rpc_url: String::new(),
    };
    assert_eq!(c.destination_pubkey(), Ok(vec![0u8; 32]));
    c.destination_wallet = "nope0".to_string();
    assert_eq!(c.destination_pubkey(), Err(AddressError::Invalid));
}

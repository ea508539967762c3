use scluner::backup::{
    resolve_restore, RestoreError, SclunerBackup, SclunerBackupCompat, SclunerGuildCompat,
};
use scluner::corpus::SclunerMessage;
use scluner::guild::SclunerGuild;
use scluner::instance::SclunerInstance;
use scluner::mutators::DefinedMutators;

fn sample_instance() -> SclunerInstance {
    let mut inst = SclunerInstance::new();
    let mut g1 = SclunerGuild::new(100);
    g1.messages.push(SclunerMessage::new(1, String::from("first words")));
    g1.messages.push(SclunerMessage::new(2, String::from("second words")));
    g1.asleep = true;
    let mut g2 = SclunerGuild::new(200);
    g2.messages.push(SclunerMessage::new(3, String::from("elsewhere")));
    g2.min_proc = 2;
    g2.max_proc = 5;
    g2.proc_out_of = 9;
    g2.proc = 3;
    inst.guilds.push(g1);
    inst.guilds.push(g2);
    inst.access.whitelist.push(1);
    inst.access.whitelist.push(2);
    inst.access.blacklist.push(66);
    inst.access.modlist.push(7);
    inst
}

#[test]
fn snapshot_round_trip_restores_everything() {
    let inst = sample_instance();
    let backup = SclunerBackup::new(
        &inst.guilds,
        &inst.access.whitelist,
        &inst.access.blacklist,
        &inst.access.modlist,
    );
    assert_eq!(backup.guilds_keys, vec![100, 200]);

    let mut restored = SclunerInstance::new();
    assert!(restored.load_backup(backup).is_ok());

    assert_eq!(restored.access.whitelist, vec![1, 2]);
    assert_eq!(restored.access.blacklist, vec![66]);
    assert_eq!(restored.access.modlist, vec![7]);
    assert_eq!(restored.guilds.len(), 2);

    let g1 = &restored.guilds[0];
    assert_eq!(g1.guild_id, 100);
    assert!(g1.asleep);
    assert_eq!(g1.messages.len(), 2);
    assert_eq!(g1.messages[0].user_id, 1);
    assert_eq!(g1.messages[0].content.as_str(), "first words");
    assert_eq!(g1.messages[1].content.as_str(), "second words");

    let g2 = &restored.guilds[1];
    assert_eq!(g2.guild_id, 200);
    assert!(!g2.asleep);
    assert_eq!(g2.min_proc, 2);
    assert_eq!(g2.max_proc, 5);
    assert_eq!(g2.proc_out_of, 9);
    assert_eq!(g2.proc, 3);
    assert_eq!(g2.messages.len(), 1);
    assert_eq!(g2.messages[0].content.as_str(), "elsewhere");
    assert_eq!(g2.allowed_mutators, DefinedMutators::default_allowed());
}

#[test]
fn invalid_snapshot_is_rejected_and_state_kept() {
    let inst = sample_instance();
    let mut backup = SclunerBackup::new(
        &inst.guilds,
        &inst.access.whitelist,
        &inst.access.blacklist,
        &inst.access.modlist,
    );
    // Duplicate scope keys make the snapshot invalid.
    backup.guilds_keys[1] = 100;
    backup.guilds_values[1].guild_id = 100;

    let mut target = SclunerInstance::new();
    target.access.whitelist.push(55);
    assert_eq!(target.load_backup(backup), Err(RestoreError::InvalidSnapshot));
    assert_eq!(target.guilds.len(), 0);
    assert_eq!(target.access.whitelist, vec![55]);
}

#[test]
fn misaligned_snapshot_is_rejected() {
    let inst = sample_instance();
    let mut backup = SclunerBackup::new(
        &inst.guilds,
        &inst.access.whitelist,
        &inst.access.blacklist,
        &inst.access.modlist,
    );
    backup.guilds_keys.pop();
    let mut target = SclunerInstance::new();
    assert_eq!(target.load_backup(backup), Err(RestoreError::InvalidSnapshot));
}

fn legacy_guild(id: u64) -> SclunerGuildCompat {
    SclunerGuildCompat {
        guild_id: id,
        messages: vec![SclunerMessage::new(4, String::from("old stock"))],
        asleep: false,
        min_proc: 1,
        max_proc: 4,
        proc_out_of: 18,
        proc: 2,
    }
}

#[test]
fn legacy_migration_injects_default_mutators() {
    let compat = SclunerBackupCompat {
        guilds_keys: vec![300, 301],
        guilds_values: vec![legacy_guild(300), legacy_guild(301)],
        whitelist: vec![1],
        blacklist: vec![],
        modlist: vec![9],
    };
    let modern = compat.modernise();
    assert_eq!(modern.guilds_keys, vec![300, 301]);
    assert_eq!(modern.guilds_values.len(), 2);
    for g in &modern.guilds_values {
        assert_eq!(g.allowed_mutators, DefinedMutators::default_allowed());
        assert_eq!(g.messages.len(), 1);
        assert_eq!(g.messages[0].content.as_str(), "old stock");
        assert_eq!(g.min_proc, 1);
        assert_eq!(g.max_proc, 4);
        assert_eq!(g.proc_out_of, 18);
        assert_eq!(g.proc, 2);
    }
    assert_eq!(modern.whitelist, vec![1]);
    assert_eq!(modern.modlist, vec![9]);

    // A migrated legacy snapshot restores cleanly.
    let mut inst = SclunerInstance::new();
    assert!(inst.load_backup(modern).is_ok());
    assert_eq!(inst.guilds.len(), 2);
    assert_eq!(inst.guilds[0].allowed_mutators, DefinedMutators::default_allowed());
}

#[test]
fn restore_prefers_current_schema() {
    let inst = sample_instance();
    let current = SclunerBackup::new(
        &inst.guilds,
        &inst.access.whitelist,
        &inst.access.blacklist,
        &inst.access.modlist,
    );
    let r = resolve_restore(Some(current), None).unwrap();
    assert_eq!(r.guilds_keys, vec![100, 200]);
}

#[test]
fn restore_falls_back_to_legacy() {
    let compat = SclunerBackupCompat {
        guilds_keys: vec![300],
        guilds_values: vec![legacy_guild(300)],
        whitelist: vec![],
        blacklist: vec![],
        modlist: vec![],
    };
    let r = resolve_restore(None, Some(compat)).unwrap();
    assert_eq!(r.guilds_keys, vec![300]);
    assert_eq!(r.guilds_values[0].allowed_mutators, DefinedMutators::default_allowed());
}

#[test]
fn restore_with_nothing_fails() {
    assert!(matches!(resolve_restore(None, None), Err(RestoreError::Deserialization)));
}

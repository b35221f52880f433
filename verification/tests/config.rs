use todo::config_get_contexts::contexts_listing;
use todo::edit::{edit_target, Error};
use todo::parse::{checked_configuration, parse_active_context};
use todo::{Configuration, Context};

fn context(name: &str) -> Context {
    Context {
        ide: format!("{}_ide", name),
        name: name.to_string(),
        timezone: format!("{}_timezone", name),
        folder_location: format!("/path/to/{}/folder", name),
    }
}

fn bare(name: &str) -> Context {
    Context {
        ide: String::new(),
        name: name.to_string(),
        timezone: String::new(),
        folder_location: String::new(),
    }
}

fn three_contexts(active: &str) -> Configuration {
    Configuration {
        active_ctx_name: active.to_string(),
        ctxs: vec![bare("ctx1"), bare("ctx2"), bare("ctx3")],
    }
}

#[test]
fn short_listing_marks_the_active_context() {
    assert_eq!(
        contexts_listing(&three_contexts("ctx1"), false),
        "\u{2192} ctx1\n  ctx2\n  ctx3\n"
    );
    assert_eq!(
        contexts_listing(&three_contexts("ctx2"), false),
        "  ctx1\n\u{2192} ctx2\n  ctx3\n"
    );
    assert_eq!(
        contexts_listing(&three_contexts("ctx3"), false),
        "  ctx1\n  ctx2\n\u{2192} ctx3\n"
    );
    assert_eq!(contexts_listing(&Configuration::new(), false), "");
}

#[test]
fn full_listing_marks_the_active_context() {
    assert_eq!(
        contexts_listing(&three_contexts("ctx1"), true),
        "--- Context (active) ---\nname: ctx1\nide: \ntimezone: \nfolder location: \n\n\
--- Context ---\nname: ctx2\nide: \ntimezone: \nfolder location: \n\n\
--- Context ---\nname: ctx3\nide: \ntimezone: \nfolder location: \n\n"
    );
    assert_eq!(
        contexts_listing(&three_contexts("ctx2"), true),
        "--- Context ---\nname: ctx1\nide: \ntimezone: \nfolder location: \n\n\
--- Context (active) ---\nname: ctx2\nide: \ntimezone: \nfolder location: \n\n\
--- Context ---\nname: ctx3\nide: \ntimezone: \nfolder location: \n\n"
    );
}

#[test]
fn context_written_out() {
    let ctx = context("work");
    assert_eq!(
        ctx.to_text(),
        "--- Context ---\nname: work\nide: work_ide\ntimezone: work_timezone\n\
folder location: /path/to/work/folder\n"
    );
    assert_eq!(ctx.short(), "work");
    let copy = ctx.clone();
    assert_eq!(copy.to_text(), ctx.to_text());
}

#[test]
fn configuration_written_out() {
    let config = Configuration {
        active_ctx_name: "home".to_string(),
        ctxs: vec![context("work"), context("home")],
    };
    assert_eq!(
        config.to_text(),
        "active_ctx_name = home\n\n\
===work context===\nide\t\t: work_ide\ntimezone\t: work_timezone\nfolder\t\t: /path/to/work/folder\n\
===home context===\nide\t\t: home_ide\ntimezone\t: home_timezone\nfolder\t\t: /path/to/home/folder\n"
    );
    assert_eq!(Configuration::new().to_text(), "active_ctx_name = \n\n");
    assert_eq!(config.clone().to_text(), config.to_text());
}

#[test]
fn configuration_is_valid_when_the_active_context_is_one_of_its_contexts() {
    assert!(three_contexts("ctx1").is_valid());
    assert!(three_contexts("ctx3").is_valid());
    assert!(!three_contexts("ctx4").is_valid());
    assert!(!three_contexts("").is_valid());
    assert!(!Configuration::new().is_valid());
    let nameless = Configuration { active_ctx_name: String::new(), ctxs: vec![bare("")] };
    assert!(nameless.is_valid());
}

#[test]
fn refused_update_leaves_the_configuration_as_it_was() {
    let mut config = three_contexts("ctx1");
    assert_eq!(config.update_active_ctx(""), Err("Active context has no name"));
    assert_eq!(config.active_ctx_name, "ctx1");
    assert_eq!(
        config.update_active_ctx("ctx4"),
        Err("No matching context could be found among available contexts")
    );
    assert_eq!(config.active_ctx_name, "ctx1");
    assert_eq!(config.ctxs.len(), 3);
    assert_eq!(config.update_active_ctx("ctx3"), Ok(()));
    assert_eq!(config.active_ctx_name, "ctx3");
    assert_eq!(config.ctxs.len(), 3);
}

#[test]
fn added_context_becomes_the_active_one() {
    let mut config = Configuration::new();
    assert_eq!(config.add_context(context("work")), Ok(()));
    assert_eq!(config.active_ctx_name, "work");
    assert_eq!(config.ctxs.len(), 1);
    assert_eq!(config.add_context(context("home")), Ok(()));
    assert_eq!(config.active_ctx_name, "home");
    assert_eq!(config.ctxs.len(), 2);
    assert_eq!(config.ctxs[1].folder_location, "/path/to/home/folder");
    assert!(config.is_valid());
    assert_eq!(config.add_context(bare("")), Err("Active context has no name"));
    assert_eq!(config.active_ctx_name, "home");
    assert_eq!(config.ctxs.len(), 2);
}

#[test]
fn active_context_is_the_first_of_its_name() {
    let config = Configuration {
        active_ctx_name: "twin".to_string(),
        ctxs: vec![
            context("other"),
            Context { ide: "first".to_string(), ..bare("twin") },
            Context { ide: "second".to_string(), ..bare("twin") },
        ],
    };
    assert_eq!(parse_active_context(&config).unwrap().ide, "first");
    assert_eq!(config.active_context().unwrap().ide, "first");
    assert_eq!(config.find_context(&"twin".to_string()), Some(1));
    assert_eq!(config.find_context(&"other".to_string()), Some(0));
    assert_eq!(config.find_context(&"none".to_string()), None);
}

#[test]
fn configuration_without_its_active_context_is_refused() {
    let message = "Invalid configuration because no contexts correspond to active context";
    assert_eq!(parse_active_context(&three_contexts("ctx4")).unwrap_err(), message);
    assert!(three_contexts("ctx4").active_context().is_none());
    assert_eq!(checked_configuration(three_contexts("ctx4")).unwrap_err(), message);
    assert_eq!(checked_configuration(Configuration::new()).unwrap_err(), message);
    let checked = checked_configuration(three_contexts("ctx2")).unwrap();
    assert_eq!(checked.active_ctx_name, "ctx2");
    assert_eq!(checked.ctxs.len(), 3);
}

#[test]
fn list_is_edited_in_the_given_context_or_the_active_one() {
    let config = Configuration {
        active_ctx_name: "work".to_string(),
        ctxs: vec![context("work"), context("home")],
    };
    let active = context("work");
    let target = edit_target("groceries", &active, &config, None).unwrap();
    assert_eq!(target.ide, "work_ide");
    assert_eq!(target.path, "/path/to/work/folder/groceries.md");
    let target = edit_target("groceries", &active, &config, Some("home")).unwrap();
    assert_eq!(target.ide, "home_ide");
    assert_eq!(target.path, "/path/to/home/folder/groceries.md");
}

#[test]
fn editing_in_an_unknown_context_is_refused() {
    let config = three_contexts("ctx1");
    let e = edit_target("groceries", &bare("ctx1"), &config, Some("ctx9")).unwrap_err();
    assert!(matches!(&e, Error::UnknownContext(name) if name == "ctx9"));
    assert_eq!(e.message(), "Unknown context \"ctx9\" was referrenced.\n");
}

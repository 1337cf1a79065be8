//! Core of a PARA-organized markdown knowledge-base site generator:
//! frontmatter parsing, wiki-link resolution and rewriting, backlink
//! indexing, and the build pipeline that ties the stages together.

use vstd::prelude::*;

mod backlinks;
mod blog;
mod config;
mod document;
mod error;
mod frontmatter;
mod fsinfo;
mod html_gen;
mod markdown;
mod minify;
mod para;
mod pipeline;
mod search;
mod text;
mod theme;
mod yaml;
mod wiki_links;

pub use backlinks::BacklinkIndex;
pub use backlinks::LinkStatistics;
pub use backlinks::apply_backlinks_to_documents;
pub use backlinks::calculate_link_statistics;
pub use backlinks::is_index_page;
pub use backlinks::lemma_broken_links_not_indexed;
pub use backlinks::lemma_sort_blv_sorted;
pub use backlinks::build_backlink_index;
pub use backlinks::extract_link_context;
pub use blog::get_blog_posts;
pub use blog::is_blog_post;
pub use config::BlogConfig;
pub use config::Config;
pub use document::BacklinkReference;
pub use document::Document;
pub use document::DocumentMetadata;
pub use error::ParaSsgError;
pub use frontmatter::extract_frontmatter;
pub use frontmatter::parse_frontmatter;
pub use fsinfo::DirectoryInfo;
pub use fsinfo::classify_markdown_file;
pub use fsinfo::file_name_of;
pub use fsinfo::file_stem_of;
pub use fsinfo::is_hidden_name;
pub use fsinfo::is_markdown_path;
pub use fsinfo::DocumentInfo;
pub use html_gen::BreadcrumbItem;
pub use html_gen::HtmlGenerator;
pub use html_gen::category_description;
pub use html_gen::category_title;
pub use html_gen::humanize_filename;
pub use markdown::extract_summary;
pub use markdown::generate_heading_id;
pub use markdown::markdown_to_html;
pub use markdown::markdown_to_html_with_ids;
pub use markdown::markdown_to_html_with_wiki_links;
pub use markdown::summarize_events;
pub use minify::is_identifier_char;
pub use minify::minify_css;
pub use minify::minify_js;
pub use pipeline::BuildOutput;
pub use pipeline::SourceDocument;
pub use pipeline::build_site;
pub use pipeline::parse_document;
pub use search::IndexStats;
pub use search::SearchEntry;
pub use search::SearchIndex;
pub use search::extract_plain_text;
pub use search::generate_excerpt;
pub use search::process_content_for_search;
pub use theme::generate_base_template;
pub use theme::generate_header_script;
pub use theme::generate_search_script;
pub use theme::get_default_styles;
pub use theme::render_comments_widget;
pub use para::CategoryGroup;
pub use para::CategoryGroups;
pub use para::ParaStatistics;
pub use para::detect_para_category;
pub use para::get_para_categories;
pub use para::has_para_structure;
pub use para::organize_by_category;
pub use wiki_links::DocumentLookup;
pub use wiki_links::ResolvedLink;
pub use wiki_links::WikiLink;
pub use wiki_links::build_document_lookup;
pub use wiki_links::calculate_relative_path;
pub use wiki_links::get_broken_links;
pub use wiki_links::html_escape;
pub use wiki_links::lemma_broken_marker_contains_target;
pub use wiki_links::lemma_normalize_idempotent;
pub use wiki_links::lemma_relative_path_round_trip;
pub use wiki_links::normalize_for_lookup;
pub use wiki_links::parse_wiki_links;
pub use wiki_links::replace_wiki_links_with_html;
pub use wiki_links::resolve_wiki_links;

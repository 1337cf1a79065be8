//! The theme layer: the scripts, styles and widgets every page carries.
//! These are fixed texts, held in pieces below; only the comments widget
//! has values spliced in.

use vstd::prelude::*;

use crate::error::ParaSsgError;
use crate::text::replace_all;
use crate::text::replace_all_spec;

verus! {

/// One piece of a theme text.
pub const COMMENTS_SCRIPT_0: &'static str = r##"
<div id="blog-comments" class="comments-section">
    <h2>Comments</h2>
    <div id="comments-list">
        <div class="loading">Loading comments...</div>
    </div>
    <a id="add-comment-btn" href="#" class="btn-primary">Add Comment on GitHub</a>
</div>
<script>
(function() {
    const owner = '{repo_owner}';
    const repo = '{repo_name}';
    const issueNumber = '{issue_number}';
    
    if (!issueNumber) {
        document.getElementById('blog-comments').innerHTML = 
            '<p>Comments are not yet enabled for this post.</p>';
        return;
    }
    
    async function loadComments() {
        try {
            const response = await fetch(
                `https://api.github.com/repos/${owner}/${repo}/issues/${issueNumber}/comments`,
                {
                    headers: {
                        'Accept': 'application/vnd.github.v3+json'
                    }
                }
            );
            
            if (response.status === 403) {
                // Rate limit hit
                const resetTime = response.headers.get('X-RateLimit-Reset');
                const resetDate = resetTime ? new Date(parseInt(resetTime) * 1000) : null;
                const message = resetDate 
                    ? `GitHub API rate limit exceeded. Please try again after ${resetDate.toLocaleTimeString()}.`
                    : 'GitHub API rate limit exceeded. Please try again later.';
                throw new Error(message);
            }
            
            if (response.status === 404) {
                throw new Error('Issue not found. Comments may not be configured correctly.');
            }
            
            if (!response.ok) {
                throw new Error(`Failed to load comments (${response.status})`);
            }
            
"##;

/// One piece of a theme text.
pub const COMMENTS_SCRIPT_1: &'static str = r##"            const comments = await response.json();
            displayComments(comments);
        } catch (error) {
            console.error('Error loading comments:', error);
            const errorMessage = error.message || 'Unable to load comments. Please try again later.';
            document.getElementById('comments-list').innerHTML = 
                `<p class="error-message">${errorMessage}</p>`;
        }
    }
    
    function displayComments(comments) {
        const container = document.getElementById('comments-list');
        if (comments.length === 0) {
            container.innerHTML = '<p>No comments yet. Be the first to comment!</p>';
            return;
        }
        
        container.innerHTML = comments.map(comment => `
            <div class="comment">
                <div class="comment-header">
                    <img src="${comment.user.avatar_url}" alt="${comment.user.login}" class="avatar">
                    <a href="${comment.user.html_url}" class="author">${comment.user.login}</a>
                    <time class="date">${new Date(comment.created_at).toLocaleDateString()}</time>
                </div>
                <div class="comment-body">${marked.parse(comment.body)}</div>
            </div>
        `).join('');
    }
    
    // Update Add Comment button
    document.getElementById('add-comment-btn').href = 
        `https://github.com/${owner}/${repo}/issues/${issueNumber}`;
    
    // Load comments when page loads
    loadComments();
})();
</script>
"##;

/// The comments widget template, as a sequence of characters.
pub open spec fn comments_script_spec() -> Seq<char> {
    COMMENTS_SCRIPT_0@ + COMMENTS_SCRIPT_1@
}

fn comments_script_text() -> (s: String)
    ensures
        s@ == comments_script_spec(),
{
    let mut s = String::new();
    s.append(COMMENTS_SCRIPT_0);
    s.append(COMMENTS_SCRIPT_1);
    proof {
        assert(s@ =~= comments_script_spec());
    }
    s
}

/// One piece of a theme text.
pub const HEADER_SCRIPT_0: &'static str = r##"// Header interactions for para-ssg
(function(){
    const header = document.querySelector('.site-header');
    const toggle = document.querySelector('.nav-toggle');
    if(toggle){
        toggle.addEventListener('click', () => header.classList.toggle('open'));
    }
    window.addEventListener('scroll', () => {
        if(window.scrollY > 40){
            document.body.classList.add('scrolled');
        } else {
            document.body.classList.remove('scrolled');
        }
    });
})();"##;

/// The header script, as a sequence of characters.
pub open spec fn header_script_spec() -> Seq<char> {
    HEADER_SCRIPT_0@
}

fn header_script_text() -> (s: String)
    ensures
        s@ == header_script_spec(),
{
    let mut s = String::new();
    s.append(HEADER_SCRIPT_0);
    proof {
        assert(s@ =~= header_script_spec());
    }
    s
}

/// One piece of a theme text.
pub const SEARCH_SCRIPT_0: &'static str = r##"
// Search functionality for para-ssg
(function() {
    let searchIndex = null;
    let searchInput = null;
    let searchResults = null;
    let searchOverlay = null;
    let currentFocus = -1;

    // Initialize search on page load
    document.addEventListener('DOMContentLoaded', function() {
        initializeSearch();
    });

    function initializeSearch() {
        // Create search overlay
        createSearchOverlay();
        
        // Set up keyboard shortcuts
        document.addEventListener('keydown', function(e) {
            // Ctrl+K or Cmd+K to open search
            if ((e.ctrlKey || e.metaKey) && e.key === 'k') {
                e.preventDefault();
                openSearch();
            }
            // Forward slash to open search (if not in input)
            else if (e.key === '/' && !isInputElement(e.target)) {
                e.preventDefault();
                openSearch();
            }
            // Escape to close search
            else if (e.key === 'Escape' && searchOverlay.style.display === 'block') {
                closeSearch();
            }
        });

        // Load search index
        loadSearchIndex();
    }

    function createSearchOverlay() {
        // Create overlay container
        searchOverlay = document.createElement('div');
        searchOverlay.id = 'search-overlay';
        searchOverlay.setAttribute('role', 'dialog');
        searchOverlay.setAttribute('aria-modal', 'true');
        searchOverlay.setAttribute('aria-labelledby', 'search-input');
        searchOverlay.style.cssText = `
            display: none;
            position: fixed;
            top: 0;
            left: 0;
            width: 100%;
            height: 100%;
            background: rgba(10, 10, 10, 0.9);
            backdrop-filter: blur(10px);
"##;

/// One piece of a theme text.
pub const SEARCH_SCRIPT_1: &'static str = r##"            -webkit-backdrop-filter: blur(10px);
            z-index: 1000;
            opacity: 0;
            transition: opacity 0.3s ease;
        `;

        // Create search container
        const searchContainer = document.createElement('div');
        searchContainer.id = 'search-container';
        searchContainer.style.cssText = `
            position: absolute;
            top: 10%;
            left: 50%;
            transform: translateX(-50%) scale(0.95);
            width: 90%;
            max-width: 700px;
            background: var(--surface-2, #2a2a2a);
            border: 1px solid var(--surface-3, #333);
            border-radius: 16px;
            box-shadow: 
                0 24px 48px rgba(0, 0, 0, 0.4),
                0 12px 24px rgba(0, 0, 0, 0.3),
                inset 0 1px 0 rgba(255, 255, 255, 0.05);
            max-height: 80vh;
            display: flex;
            flex-direction: column;
            opacity: 0;
            transition: transform 0.3s ease, opacity 0.3s ease;
        `;

        // Create search input
        searchInput = document.createElement('input');
        searchInput.type = 'text';
        searchInput.id = 'search-input';
        searchInput.placeholder = 'Search documents... (Press "/" or Ctrl+K)';
        searchInput.setAttribute('aria-label', 'Search documents');
        searchInput.setAttribute('aria-describedby', 'search-instructions');
        searchInput.style.cssText = `
            padding: 24px 28px;
            font-size: 18px;
            font-weight: 400;
            border: none;
            border-bottom: 1px solid var(--surface-3, #333);
            background: transparent;
            outline: none;
            color: var(--text-primary, #e0e0e0);
            transition: border-color 0.2s ease;
"##;

/// One piece of a theme text.
pub const SEARCH_SCRIPT_2: &'static str = r##"        `;
        searchInput.setAttribute('autocomplete', 'off');
        searchInput.setAttribute('spellcheck', 'false');

        // Create results container
        searchResults = document.createElement('div');
        searchResults.id = 'search-results';
        searchResults.setAttribute('role', 'listbox');
        searchResults.setAttribute('aria-label', 'Search results');
        searchResults.setAttribute('aria-live', 'polite');
        searchResults.style.cssText = `
            padding: 0 12px 12px;
            overflow-y: auto;
            max-height: calc(80vh - 90px);
            scrollbar-width: thin;
            scrollbar-color: var(--surface-4, #444) transparent;
        `;
        
        // Add custom scrollbar styles
        const scrollbarStyles = document.createElement('style');
        scrollbarStyles.textContent = `
            #search-results::-webkit-scrollbar {
                width: 8px;
            }
            #search-results::-webkit-scrollbar-track {
                background: transparent;
            }
            #search-results::-webkit-scrollbar-thumb {
                background: var(--surface-4, #444);
                border-radius: 4px;
            }
            #search-results::-webkit-scrollbar-thumb:hover {
                background: var(--surface-5, #555);
            }
            #search-container.search-active {
                transform: translateX(-50%) scale(1);
                opacity: 1;
            }
            #search-overlay.search-active {
                opacity: 1;
            }
            @keyframes resultFadeIn {
                from {
                    opacity: 0;
                    transform: translateY(10px);
                }
                to {
                    opacity: 1;
                    transform: translateY(0);
"##;

/// One piece of a theme text.
pub const SEARCH_SCRIPT_3: &'static str = r##"                }
            }
            .search-result {
                animation: resultFadeIn 0.3s ease forwards;
            }
            .search-result:nth-child(1) { animation-delay: 0s; }
            .search-result:nth-child(2) { animation-delay: 0.05s; }
            .search-result:nth-child(3) { animation-delay: 0.1s; }
            .search-result:nth-child(4) { animation-delay: 0.15s; }
            .search-result:nth-child(5) { animation-delay: 0.2s; }
            .search-result:nth-child(n+6) { animation-delay: 0.25s; }
        `;
        document.head.appendChild(scrollbarStyles);

        // Add search instructions for screen readers
        const searchInstructions = document.createElement('div');
        searchInstructions.id = 'search-instructions';
        searchInstructions.className = 'sr-only';
        searchInstructions.textContent = 'Type to search. Use arrow keys to navigate results. Press Enter to select.';
        searchInstructions.style.cssText = `
            position: absolute;
            width: 1px;
            height: 1px;
            padding: 0;
            margin: -1px;
            overflow: hidden;
            clip: rect(0,0,0,0);
            white-space: nowrap;
            border: 0;
        `;
        
        // Assemble components
        searchContainer.appendChild(searchInput);
        searchContainer.appendChild(searchInstructions);
        searchContainer.appendChild(searchResults);
        searchOverlay.appendChild(searchContainer);
        document.body.appendChild(searchOverlay);

        // Set up event listeners
        searchInput.addEventListener('input', performSearch);
        searchInput.addEventListener('keydown', handleSearchNavigation);
        searchOverlay.addEventListener('click', function(e) {
            if (e.target === searchOverlay) {
"##;

/// One piece of a theme text.
pub const SEARCH_SCRIPT_4: &'static str = r##"                closeSearch();
            }
        });
    }

    function loadSearchIndex() {
        fetch('/search-index.json')
            .then(response => response.json())
            .then(data => {
                searchIndex = data;
                console.log('Search index loaded:', data.stats);
            })
            .catch(error => {
                console.error('Failed to load search index:', error);
            });
    }

    function openSearch() {
        if (!searchOverlay) return;
        searchOverlay.style.display = 'block';
        searchInput.value = '';
        searchResults.innerHTML = '';
        currentFocus = -1;
        
        // Trigger animations
        requestAnimationFrame(() => {
            searchOverlay.classList.add('search-active');
            document.getElementById('search-container').classList.add('search-active');
            searchInput.focus();
        });
    }

    function closeSearch() {
        if (!searchOverlay) return;
        
        // Remove animations
        searchOverlay.classList.remove('search-active');
        document.getElementById('search-container').classList.remove('search-active');
        
        // Wait for animation to complete
        setTimeout(() => {
            searchOverlay.style.display = 'none';
            searchInput.value = '';
            searchResults.innerHTML = '';
        }, 300);
    }

    function performSearch() {
        const query = searchInput.value.toLowerCase().trim();
        
        if (!query) {
            searchResults.innerHTML = '';
            return;
        }

        if (!searchIndex || !searchIndex.entries) {
            searchResults.innerHTML = '<p style="color: #a0a0a0;">Search index not loaded yet...</p>';
            return;
        }

        const results = searchDocuments(query);
"##;

/// One piece of a theme text.
pub const SEARCH_SCRIPT_5: &'static str = r##"        displayResults(results, query);
    }

    function searchDocuments(query) {
        const results = [];
        const queryWords = query.split(/\s+/).filter(w => w.length > 0);

        for (const entry of searchIndex.entries) {
            let score = 0;
            let matches = [];

            // Search in title (higher weight)
            for (const word of queryWords) {
                if (entry.title.toLowerCase().indexOf(word) !== -1) {
                    score += 10;
                    matches.push('title');
                }
            }

            // Search in tags (medium weight)
            for (const tag of entry.tags) {
                for (const word of queryWords) {
                    if (tag.toLowerCase().indexOf(word) !== -1) {
                        score += 5;
                        matches.push('tag');
                        break;
                    }
                }
            }

            // Search in content (lower weight)
            for (const word of queryWords) {
                if (entry.content.indexOf(word) !== -1) {
                    score += 1;
                    matches.push('content');
                }
            }

            if (score > 0) {
                results.push({
                    entry: entry,
                    score: score,
                    matches: [...new Set(matches)]
                });
            }
        }

        // Sort by score (descending)
        results.sort((a, b) => b.score - a.score);
        
        return results.slice(0, 20); // Limit to top 20 results
    }

    function displayResults(results, query) {
        if (results.length === 0) {
            searchResults.innerHTML = '<p style="color: #a0a0a0;" role="status">No results found</p>';
            searchResults.setAttribute('aria-label', 'No search results found');
"##;

/// One piece of a theme text.
pub const SEARCH_SCRIPT_6: &'static str = r##"            return;
        }
        
        searchResults.setAttribute('aria-label', `${results.length} search results found`);

        const html = results.map((result, index) => {
            const entry = result.entry;
            const highlightedTitle = highlightText(entry.title, query);
            const highlightedExcerpt = highlightText(entry.excerpt, query);
            
            const categoryColors = {
                'projects': 'var(--accent-gradient-1, linear-gradient(135deg, #007acc, #0099ff))',
                'areas': 'var(--accent-gradient-2, linear-gradient(135deg, #00cc88, #00ffaa))',
                'resources': 'var(--accent-gradient-3, linear-gradient(135deg, #cc7700, #ff9900))',
                'archives': 'var(--accent-gradient-4, linear-gradient(135deg, #cc0077, #ff0099))'
            };
            
            const categoryGradient = categoryColors[entry.category] || categoryColors['resources'];
            
            return `
                <div class="search-result" data-index="${index}" role="option" aria-selected="false" tabindex="-1" style="
                    position: relative;
                    padding: 20px;
                    margin: 0 16px 16px;
                    background: var(--surface-1, #1a1a1a);
                    border: 1px solid var(--surface-3, #333);
                    border-radius: 12px;
                    cursor: pointer;
                    transition: all 0.3s ease;
                    transform: translateY(0);
                    opacity: 0;
                ">
                    <div style="
                        position: absolute;
                        left: 0;
                        top: 0;
                        bottom: 0;
                        width: 4px;
                        background: ${categoryGradient};
"##;

/// One piece of a theme text.
pub const SEARCH_SCRIPT_7: &'static str = r##"                        border-radius: 12px 0 0 12px;
                        transition: width 0.3s ease;
                    "></div>
                    <h3 style="
                        margin: 0 0 8px 0;
                        padding-left: 8px;
                        font-size: 18px;
                        font-weight: 600;
                        line-height: 1.4;
                    ">
                        <a href="${entry.path}" style="
                            text-decoration: none;
                            color: var(--text-primary, #e0e0e0);
                            transition: color 0.2s ease;
                        " onmouseover="this.style.color='var(--link-hover, #4a9eff)'" onmouseout="this.style.color='var(--text-primary, #e0e0e0)'">
                            ${highlightedTitle}
                        </a>
                    </h3>
                    <p style="
                        margin: 0 0 12px 0;
                        padding-left: 8px;
                        color: var(--text-secondary, #a0a0a0);
                        font-size: 14px;
                        line-height: 1.6;
                    ">
                        ${highlightedExcerpt}
                    </p>
                    <div style="
                        padding-left: 8px;
                        display: flex;
                        flex-wrap: wrap;
                        gap: 8px;
                        align-items: center;
                    ">
                        <span style="
                            background: ${categoryGradient};
                            color: white;
                            padding: 4px 12px;
                            border-radius: 20px;
                            font-size: 12px;
                            font-weight: 500;
"##;

/// One piece of a theme text.
pub const SEARCH_SCRIPT_8: &'static str = r##"                            text-transform: capitalize;
                        ">
                            ${entry.category}
                        </span>
                        ${entry.tags.slice(0, 3).map(tag => 
                            `<span style="
                                background: var(--surface-3, #333);
                                color: var(--text-secondary, #a0a0a0);
                                padding: 4px 12px;
                                border-radius: 20px;
                                font-size: 12px;
                                transition: all 0.2s ease;
                            " onmouseover="this.style.background='var(--surface-4, #444)'" onmouseout="this.style.background='var(--surface-3, #333)'">
                                ${tag}
                            </span>`
                        ).join('')}
                    </div>
                </div>
            `;
        }).join('');

        searchResults.innerHTML = html;
        
        // Add click handlers and hover effects
        const resultElements = searchResults.querySelectorAll('.search-result');
        resultElements.forEach(el => {
            // Add hover effects
            el.addEventListener('mouseenter', function() {
                this.style.background = 'var(--surface-2, #2a2a2a)';
                this.style.transform = 'translateY(-2px)';
                this.style.boxShadow = '0 8px 16px rgba(0, 0, 0, 0.2)';
                const accentBar = this.querySelector('div');
                if (accentBar) accentBar.style.width = '6px';
            });
            
            el.addEventListener('mouseleave', function() {
                this.style.background = 'var(--surface-1, #1a1a1a)';
                this.style.transform = 'translateY(0)';
"##;

/// One piece of a theme text.
pub const SEARCH_SCRIPT_9: &'static str = r##"                this.style.boxShadow = 'none';
                const accentBar = this.querySelector('div');
                if (accentBar) accentBar.style.width = '4px';
            });
            
            // Click handler
            el.addEventListener('click', function(e) {
                if (!e.target.closest('a')) {
                    const link = this.querySelector('a');
                    if (link) window.location.href = link.href;
                }
            });
        });
    }

    function highlightText(text, query) {
        if (!text) return '';
        
        const words = query.split(/\s+/).filter(w => w.length > 0);
        let highlighted = text;
        
        for (const word of words) {
            const regex = new RegExp(`(${escapeRegex(word)})`, 'gi');
            highlighted = highlighted.replace(regex, '<mark style="background: var(--link-color, #007acc); color: white; padding: 1px 4px; border-radius: 3px; font-weight: 500;">$1</mark>');
        }
        
        return highlighted;
    }

    function handleSearchNavigation(e) {
        const results = searchResults.querySelectorAll('.search-result');
        
        if (e.key === 'ArrowDown') {
            e.preventDefault();
            currentFocus++;
            if (currentFocus >= results.length) currentFocus = 0;
            setFocus(results);
        } else if (e.key === 'ArrowUp') {
            e.preventDefault();
            currentFocus--;
            if (currentFocus < 0) currentFocus = results.length - 1;
            setFocus(results);
        } else if (e.key === 'Enter' && currentFocus >= 0 && currentFocus < results.length) {
            e.preventDefault();
            const link = results[currentFocus].querySelector('a');
            if (link) window.location.href = link.href;
"##;

/// One piece of a theme text.
pub const SEARCH_SCRIPT_10: &'static str = r##"        }
    }

    function setFocus(results) {
        results.forEach((el, index) => {
            if (index === currentFocus) {
                el.style.background = 'var(--link-color, #007acc)';
                el.style.transform = 'translateY(-2px) translateZ(0)';
                el.style.boxShadow = '0 0 0 2px var(--link-color, #007acc)';
                el.scrollIntoView({ block: 'nearest', behavior: 'smooth' });
                el.setAttribute('aria-selected', 'true');
                el.setAttribute('tabindex', '0');
                const accentBar = el.querySelector('div');
                if (accentBar) accentBar.style.width = '8px';
            } else {
                el.style.background = 'var(--surface-1, #1a1a1a)';
                el.style.transform = 'translateY(0) translateZ(0)';
                el.style.boxShadow = 'none';
                el.setAttribute('aria-selected', 'false');
                el.setAttribute('tabindex', '-1');
                const accentBar = el.querySelector('div');
                if (accentBar) accentBar.style.width = '4px';
            }
        });
    }

    function isInputElement(element) {
        return element.tagName === 'INPUT' || 
               element.tagName === 'TEXTAREA' || 
               element.isContentEditable;
    }

    function escapeRegex(string) {
        return string.replace(/[.*+?^${}()|[\]\\]/g, '\\$&');
    }

    // Also add inline search boxes
    document.addEventListener('DOMContentLoaded', function() {
        const inlineSearchBoxes = document.querySelectorAll('.search-box');
        inlineSearchBoxes.forEach(box => {
            box.addEventListener('click', openSearch);
            box.addEventListener('keydown', function(e) {
                if (e.key === 'Enter') {
                    e.preventDefault();
"##;

/// One piece of a theme text.
pub const SEARCH_SCRIPT_11: &'static str = r##"                    openSearch();
                }
            });
        });
    });
})();
"##;

/// The search script, as a sequence of characters.
pub open spec fn search_script_spec() -> Seq<char> {
    SEARCH_SCRIPT_0@ + SEARCH_SCRIPT_1@ + SEARCH_SCRIPT_2@ + SEARCH_SCRIPT_3@ + SEARCH_SCRIPT_4@ + SEARCH_SCRIPT_5@ + SEARCH_SCRIPT_6@ + SEARCH_SCRIPT_7@ + SEARCH_SCRIPT_8@ + SEARCH_SCRIPT_9@ + SEARCH_SCRIPT_10@ + SEARCH_SCRIPT_11@
}

fn search_script_text() -> (s: String)
    ensures
        s@ == search_script_spec(),
{
    let mut s = String::new();
    s.append(SEARCH_SCRIPT_0);
    s.append(SEARCH_SCRIPT_1);
    s.append(SEARCH_SCRIPT_2);
    s.append(SEARCH_SCRIPT_3);
    s.append(SEARCH_SCRIPT_4);
    s.append(SEARCH_SCRIPT_5);
    s.append(SEARCH_SCRIPT_6);
    s.append(SEARCH_SCRIPT_7);
    s.append(SEARCH_SCRIPT_8);
    s.append(SEARCH_SCRIPT_9);
    s.append(SEARCH_SCRIPT_10);
    s.append(SEARCH_SCRIPT_11);
    proof {
        assert(s@ =~= search_script_spec());
    }
    s
}

/// One piece of a theme text.
pub const DEFAULT_STYLES_0: &'static str = r##"
    /* ==========================================================================
       CSS Reset and Base Styles
       ========================================================================== */
    
    * {
        margin: 0;
        padding: 0;
        box-sizing: border-box;
    }
    
    /* Ensure smooth scrolling and focus behavior */
    html {
        scroll-behavior: smooth;
    }
    
    :focus-visible {
        outline: 2px solid var(--accent-primary);
        outline-offset: 2px;
    }
    
    /* ==========================================================================
       Design System: Color Variables
       ========================================================================== */
    
    :root {
        /* Base colors */
        --bg-primary: #0f0f0f;
        --bg-secondary: #1a1a1a;
        --bg-tertiary: #2a2a2a;
        --bg-elevated: #333333;
        
        /* Text hierarchy */
        --text-primary: #f0f0f0;
        --text-secondary: #b4b4b4;
        --text-muted: #737373;
        --text-subtle: #525252;
        
        /* Border system */
        --border-primary: #333333;
        --border-secondary: #404040;
        --border-subtle: #262626;
        
        /* Brand gradient system */
        --accent-primary: #0EA5E9;
        --accent-secondary: #3B82F6;
        --accent-gradient: linear-gradient(135deg, var(--accent-primary) 0%, var(--accent-secondary) 100%);
        --accent-gradient-hover: linear-gradient(135deg, #0284C7 0%, #2563EB 100%);
        --gradient-primary: linear-gradient(135deg, var(--accent-primary) 0%, var(--accent-secondary) 100%);
        
        /* Semantic colors */
        --success: #10B981;
        --success-bg: rgba(16, 185, 129, 0.1);
        --warning: #F59E0B;
        --warning-bg: rgba(245, 158, 11, 0.1);
"##;

/// One piece of a theme text.
pub const DEFAULT_STYLES_1: &'static str = r##"        --error: #EF4444;
        --error-bg: rgba(239, 68, 68, 0.1);
        --info: #06B6D4;
        --info-bg: rgba(6, 182, 212, 0.1);
        
        /* Link colors with better contrast */
        --link-primary: #60A5FA;
        --link-hover: #93C5FD;
        --link-visited: #A78BFA;
        
        /* Surface elevations */
        --surface-base: var(--bg-primary);
        --surface-raised: var(--bg-secondary);
        --surface-overlay: var(--bg-tertiary);
        --surface-elevated: var(--bg-elevated);
        
        /* Interactive states */
        --interactive-hover: rgba(255, 255, 255, 0.05);
        --interactive-active: rgba(255, 255, 255, 0.1);
        --interactive-disabled: rgba(255, 255, 255, 0.02);
        
        /* Shadow system */
        --shadow-sm: 0 1px 2px 0 rgba(0, 0, 0, 0.3);
        --shadow-base: 0 1px 3px 0 rgba(0, 0, 0, 0.4), 0 1px 2px 0 rgba(0, 0, 0, 0.3);
        --shadow-md: 0 4px 6px -1px rgba(0, 0, 0, 0.4), 0 2px 4px -1px rgba(0, 0, 0, 0.3);
        --shadow-lg: 0 10px 15px -3px rgba(0, 0, 0, 0.4), 0 4px 6px -2px rgba(0, 0, 0, 0.3);
        
        /* Legacy support - map old variables to new system */
        --accent: var(--accent-primary);
        --accent-hover: var(--accent-secondary);
        --link-color: var(--link-primary);
        --link-hover: var(--link-hover);
        --border-color: var(--border-primary);
    }
    
    /* ==========================================================================
       Design System: Spacing & Layout Variables
       ========================================================================== */
    
    :root {
        --space-1: 0.5rem;  /* 8px */
        --space-2: 1rem;    /* 16px */
        --space-3: 1.5rem;  /* 24px */
        --space-4: 2rem;    /* 32px */
        --space-6: 3rem;    /* 48px */
"##;

/// One piece of a theme text.
pub const DEFAULT_STYLES_2: &'static str = r##"        --space-8: 4rem;    /* 64px */
        --space-12: 6rem;   /* 96px */
        --space-16: 8rem;   /* 128px */
        
        /* Responsive breakpoints */
        --breakpoint-sm: 640px;
        --breakpoint-md: 768px;
        --breakpoint-lg: 1024px;
        --breakpoint-xl: 1280px;
    }
    
    /* ==========================================================================
       Typography & Body Styles
       ========================================================================== */
    
    body {
        font-family: -apple-system, BlinkMacSystemFont, 'Segoe UI', 'Roboto', 'Inter', 'Helvetica Neue', sans-serif;
        line-height: 1.6;
        color: var(--text-primary);
        background-color: var(--bg-primary);
        min-height: 100vh;
        font-feature-settings: 'cv11', 'ss01';
        font-variant-numeric: tabular-nums;
        text-rendering: optimizeLegibility;
        -webkit-font-smoothing: antialiased;
        -moz-osx-font-smoothing: grayscale;
        
        /* CSS Grid for main layout */
        display: grid;
        grid-template-areas:
            "header"
            "main"
            "footer";
        grid-template-rows: auto 1fr auto;
        grid-template-columns: 1fr;
    }
    
    /* ==========================================================================
       Layout Components
       ========================================================================== */
    
    .container {
        max-width: 1000px;
        margin: 0 auto;
        padding: 0 var(--space-4);
        width: 100%;
    }
    
    /* ==========================================================================
       Header & Navigation
       ========================================================================== */
    
    .site-header {
        grid-area: header;
"##;

/// One piece of a theme text.
pub const DEFAULT_STYLES_3: &'static str = r##"        background: linear-gradient(135deg, #181818 0%, #0E0E0E 60%);
        color: var(--text-primary);
        height: var(--header-height, 80px);
        transition: height 0.25s ease, box-shadow 0.25s;
        position: sticky;
        top: 0;
        z-index: 100;
        display: flex;
        flex-direction: column;
        align-items: center;
    }

    .header-inner {
        width: min(90%, 1200px);
        display: flex;
        justify-content: space-between;
        align-items: center;
        padding-top: var(--space-2);
    }

    .logo {
        font-size: 2rem;
        color: #fff;
        font-weight: 700;
        text-decoration: none;
    }


    .site-nav {
        display: flex;
        gap: 1.5rem;
    }

    .nav-item {
        color: var(--text-secondary);
        font-weight: 500;
        position: relative;
        text-decoration: none;
        transition: color 0.2s ease;
    }
    
    .nav-item:hover {
        color: var(--text-primary);
        text-decoration: none;
    }

    .nav-item.active {
        color: var(--accent-primary);
    }

    .nav-item.active::after,
    .nav-item:hover::after {
        content: "";
        position: absolute;
        left: 0;
        right: 0;
        bottom: -6px;
        height: 2px;
        background: var(--accent-primary);
    }

    .nav-divider {
        width: 1px;
        height: 20px;
        background-color: var(--text-secondary);
        opacity: 0.3;
        margin: 0 0.5rem;
        align-self: center;
    }

    .nav-toggle {
        display: none;
        background: none;
        border: none;
    }

    .burger {
        width: 24px;
        height: 2px;
        background: #fff;
        position: relative;
    }

    .burger::before,
    .burger::after {
        content: "";
        position: absolute;
"##;

/// One piece of a theme text.
pub const DEFAULT_STYLES_4: &'static str = r##"        width: 24px;
        height: 2px;
        background: #fff;
    }

    .burger::before { top: -6px; }
    .burger::after { top: 6px; }

    body.scrolled .site-header {
        height: 60px;
        box-shadow: 0 2px 4px rgba(0, 0, 0, 0.4);
    }


    /* Hide search in minimal theme */
    .nav-search {
        display: none;
    }
    
    /* ==========================================================================
       Main Content Area
       ========================================================================== */
    
    main {
        grid-area: main;
        padding: var(--space-4) 0;
        min-height: 0; /* Allow grid to control height */
    }
    
    /* ==========================================================================
       File Cards Component
       ========================================================================== */
    
    .file-cards {
        display: grid;
        grid-template-columns: 1fr;
        gap: var(--space-3);
        margin-top: var(--space-4);
        max-width: 1200px;
        margin-left: auto;
        margin-right: auto;
    }
    
    .file-card {
        background-color: var(--surface-raised);
        border: 1px solid var(--border-primary);
        border-radius: 8px;
        padding: var(--space-3);
        transition: transform 0.3s cubic-bezier(0.4, 0, 0.2, 1),
                    background-color 0.3s cubic-bezier(0.4, 0, 0.2, 1),
                    border-color 0.3s cubic-bezier(0.4, 0, 0.2, 1),
                    box-shadow 0.3s cubic-bezier(0.4, 0, 0.2, 1);
        position: relative;
        overflow: hidden;
    }
    
    .file-card::before {
        content: '';
        position: absolute;
        top: 0;
        left: 0;
        right: 0;
        height: 3px;
        background: var(--accent-gradient);
"##;

/// One piece of a theme text.
pub const DEFAULT_STYLES_5: &'static str = r##"        opacity: 0;
        transition: opacity 0.3s ease;
    }
    
    .file-card:hover {
        border-color: var(--border-secondary);
        background-color: var(--surface-overlay);
        transform: translateY(-2px) translateZ(0);
        box-shadow: var(--shadow-md);
    }
    
    .file-card:hover::before {
        opacity: 1;
    }
    
    .file-card:active {
        transform: translateY(-1px) translateZ(0);
        transition: all 0.1s cubic-bezier(0.4, 0, 0.2, 1);
    }
    
    .file-card-header {
        display: flex;
        justify-content: space-between;
        align-items: flex-start;
        gap: var(--space-2);
        margin-bottom: var(--space-2);
    }
    
    .file-title {
        font-size: 1.1rem;
        font-weight: 600;
        margin: 0;
        line-height: 1.3;
        flex: 1;
        min-width: 0; /* Allow text truncation */
    }
    
    .file-title a {
        color: var(--text-primary);
        text-decoration: none;
        transition: color 0.2s ease;
    }
    
    .file-title a:hover {
        color: var(--accent-primary);
        text-decoration: none;
    }
    
    .file-category {
        font-size: 0.75rem;
        font-weight: 500;
        text-transform: uppercase;
        letter-spacing: 0.05em;
        padding: 0.25rem 0.5rem;
        border-radius: 12px;
        white-space: nowrap;
        border: 1px solid transparent;
        transition: all 0.2s ease;
    }
    
    /* Category color coding */
    .category-projects {
        background-color: rgba(16, 185, 129, 0.1);
        color: var(--success);
        border-color: rgba(16, 185, 129, 0.3);
    }
    
    .category-areas {
        background-color: rgba(59, 130, 246, 0.1);
        color: var(--accent-secondary);
        border-color: rgba(59, 130, 246, 0.3);
"##;

/// One piece of a theme text.
pub const DEFAULT_STYLES_6: &'static str = r##"    }
    
    .category-resources {
        background-color: rgba(245, 158, 11, 0.1);
        color: var(--warning);
        border-color: rgba(245, 158, 11, 0.3);
    }
    
    .category-archives {
        background-color: rgba(107, 114, 128, 0.1);
        color: var(--text-muted);
        border-color: rgba(107, 114, 128, 0.3);
    }
    
    .category-other {
        background-color: rgba(139, 92, 246, 0.1);
        color: #8B5CF6;
        border-color: rgba(139, 92, 246, 0.3);
    }
    
    .file-card-meta {
        display: flex;
        justify-content: space-between;
        align-items: center;
        gap: var(--space-2);
        font-size: 0.85rem;
        color: var(--text-muted);
    }
    
    .file-date {
        white-space: nowrap;
        font-feature-settings: 'tnum';
    }
    
    .file-tags {
        display: flex;
        flex-wrap: wrap;
        gap: 0.25rem;
        justify-content: flex-end;
        flex: 1;
        min-width: 0;
    }
    
    .file-tags .tag {
        font-size: 0.75rem;
        padding: 0.15rem 0.4rem;
        background-color: var(--surface-elevated);
        color: var(--text-secondary);
        border-radius: 6px;
        border: 1px solid var(--border-subtle);
        transition: all 0.2s ease;
        display: inline-flex;
        align-items: center;
        max-width: 100px;
        overflow: hidden;
        text-overflow: ellipsis;
        white-space: nowrap;
    }
    
    .file-tags .tag:hover {
        background-color: var(--surface-overlay);
        border-color: var(--border-primary);
        color: var(--text-primary);
    }
    
    .no-tags {
        color: var(--text-muted);
        font-style: italic;
        font-size: 0.8rem;
    }
    
    /* ==========================================================================
"##;

/// One piece of a theme text.
pub const DEFAULT_STYLES_7: &'static str = r##"       Document Pages
       ========================================================================== */
    
    .document h1 {
        font-size: clamp(1.75rem, 4vw, 2rem);
        margin-bottom: 1rem;
        color: var(--text-primary);
        font-weight: 600;
        letter-spacing: -0.025em;
        line-height: 1.2;
    }
    
    .document-header {
        margin-bottom: var(--space-4);
        padding-bottom: var(--space-2);
        border-bottom: 1px solid var(--border-primary);
    }
    
    .document-meta {
        display: flex;
        flex-wrap: wrap;
        gap: var(--space-2);
        margin-top: var(--space-1);
        font-size: 0.9rem;
        color: var(--text-muted);
    }
    
    .document-content {
        color: var(--text-primary);
        line-height: 1.7;
    }
    
    .document-content h2 {
        font-size: clamp(1.5rem, 3.5vw, 1.75rem);
        margin-top: var(--space-4);
        margin-bottom: var(--space-2);
        color: var(--text-primary);
        font-weight: 600;
        letter-spacing: -0.025em;
        line-height: 1.3;
    }
    
    .document-content h3 {
        font-size: clamp(1.25rem, 3vw, 1.5rem);
        margin-top: var(--space-3);
        margin-bottom: var(--space-2);
        color: var(--text-primary);
        font-weight: 600;
        letter-spacing: -0.02em;
        line-height: 1.3;
    }
    
    .document-content h4 {
        font-size: clamp(1.125rem, 2.5vw, 1.25rem);
        margin-top: var(--space-3);
        margin-bottom: var(--space-2);
        color: var(--text-primary);
        font-weight: 600;
        letter-spacing: -0.015em;
        line-height: 1.4;
    }
    
    .document-content p {
        margin-bottom: var(--space-2);
    }
    
    .document-content ul,
    .document-content ol {
        margin-bottom: var(--space-2);
"##;

/// One piece of a theme text.
pub const DEFAULT_STYLES_8: &'static str = r##"        margin-left: var(--space-3);
    }
    
    .document-content blockquote {
        border-left: 3px solid var(--accent-primary);
        padding-left: var(--space-2);
        margin: var(--space-3) 0;
        color: var(--text-secondary);
        font-style: italic;
    }
    
    .document-content code {
        background-color: var(--surface-raised);
        color: var(--text-primary);
        padding: 0.2rem 0.4rem;
        border-radius: 3px;
        font-family: 'SF Mono', Monaco, 'Cascadia Code', 'Roboto Mono', Consolas, 'Courier New', monospace;
        font-size: 0.9em;
    }
    
    .document-content pre {
        background-color: var(--surface-raised);
        border: 1px solid var(--border-primary);
        padding: var(--space-2);
        border-radius: 5px;
        overflow-x: auto;
        margin: var(--space-3) 0;
    }
    
    .document-content pre code {
        background: none;
        padding: 0;
    }
    
    /* ==========================================================================
       Category Pages
       ========================================================================== */
    
    .category-index h1 {
        font-size: clamp(2rem, 4vw, 2.5rem);
        margin-bottom: var(--space-2);
        color: var(--text-primary);
        font-weight: 700;
        letter-spacing: -0.025em;
        line-height: 1.2;
    }
    
    .category-description {
        color: var(--text-secondary);
        margin-bottom: var(--space-3);
        font-style: italic;
        line-height: 1.5;
    }
    
    .document-count {
        color: var(--text-muted);
        font-size: 0.9rem;
        margin-bottom: var(--space-4);
        padding-bottom: var(--space-2);
        border-bottom: 1px solid var(--border-primary);
    }
    
    .document-list {
"##;

/// One piece of a theme text.
pub const DEFAULT_STYLES_9: &'static str = r##"        display: grid;
        gap: var(--space-3);
        grid-template-columns: 1fr;
    }
    
    .document-entry {
        padding: var(--space-3);
        border: 1px solid var(--border-primary);
        border-radius: 8px;
        background-color: var(--surface-raised);
        transition: transform 0.2s cubic-bezier(0.4, 0, 0.2, 1),
                    background-color 0.2s cubic-bezier(0.4, 0, 0.2, 1),
                    border-color 0.2s cubic-bezier(0.4, 0, 0.2, 1);
    }
    
    .document-entry:hover {
        border-color: var(--border-secondary);
        background-color: var(--surface-overlay);
    }
    
    .document-entry h2 {
        font-size: 1.2rem;
        margin-bottom: 0.5rem;
    }
    
    .document-entry h2 a {
        color: var(--link-primary);
        text-decoration: none;
    }
    
    .document-entry h2 a:hover {
        color: var(--link-hover);
    }
    
    .entry-meta {
        display: flex;
        flex-wrap: wrap;
        gap: var(--space-2);
        font-size: 0.85rem;
        color: var(--text-muted);
        margin-bottom: var(--space-1);
    }
    
    .summary {
        color: var(--text-secondary);
        line-height: 1.5;
    }
    
    /* ==========================================================================
       Directory Cards
       ========================================================================== */
    
    .directory-cards {
        margin-bottom: var(--space-4);
    }
    
    .directory-cards h2 {
        font-size: 1.5rem;
        margin-bottom: var(--space-3);
        color: var(--text-primary);
    }
    
    .directory-grid {
        display: grid;
        gap: var(--space-3);
        grid-template-columns: repeat(auto-fill, minmax(350px, 1fr));
    }
    
    .directory-card {
        background-color: var(--surface-raised);
"##;

/// One piece of a theme text.
pub const DEFAULT_STYLES_10: &'static str = r##"        border: 1px solid var(--border-primary);
        border-radius: 8px;
        transition: transform 0.2s cubic-bezier(0.4, 0, 0.2, 1),
                    background-color 0.2s cubic-bezier(0.4, 0, 0.2, 1),
                    border-color 0.2s cubic-bezier(0.4, 0, 0.2, 1),
                    box-shadow 0.2s cubic-bezier(0.4, 0, 0.2, 1);
    }
    
    .directory-card:hover {
        transform: translateY(-2px);
        border-color: var(--accent-primary);
        background-color: var(--surface-overlay);
        box-shadow: 0 4px 12px rgba(0, 0, 0, 0.4);
    }
    
    .directory-link {
        display: block;
        padding: var(--space-3);
        text-decoration: none;
        color: inherit;
        height: 100%;
    }
    
    .directory-card h3 {
        font-size: 1.25rem;
        margin-bottom: var(--space-2);
        color: var(--text-primary);
        font-weight: 600;
    }
    
    .directory-meta {
        display: flex;
        flex-wrap: wrap;
        gap: var(--space-2);
        font-size: 0.875rem;
        color: var(--text-muted);
    }
    
    .directory-meta .doc-count {
        background-color: var(--bg-tertiary);
        padding: 2px 8px;
        border-radius: 4px;
    }
    
    .directory-meta .subdir-count {
        background-color: var(--bg-tertiary);
        padding: 2px 8px;
        border-radius: 4px;
    }
    
    .subdirectory-index .document-entries {
        margin-top: var(--space-4);
    }
    
    .subdirectory-index .document-entries h2 {
        font-size: 1.5rem;
        margin-bottom: var(--space-3);
        color: var(--text-primary);
    }
    
    /* Add spacing between document entries in subdirectories */
    .document-entries .document-entry + .document-entry {
        margin-top: var(--space-3);
    }
    
    /* Also add spacing for regular document lists */
"##;

/// One piece of a theme text.
pub const DEFAULT_STYLES_11: &'static str = r##"    .document-entry + .document-entry {
        margin-top: var(--space-3);
    }
    
    .empty-directory {
        text-align: center;
        color: var(--text-muted);
        padding: var(--space-6) var(--space-3);
        font-style: italic;
    }
    
    /* Subdirectory index spacing */
    .subdirectory-index h1 {
        font-size: 2.5rem;
        margin-bottom: var(--space-2);
        background: var(--gradient-primary);
        background-clip: text;
        -webkit-background-clip: text;
        -webkit-text-fill-color: transparent;
        font-weight: 700;
    }
    
    .subdirectory-description {
        color: var(--text-secondary);
        margin-bottom: var(--space-3);
        font-style: italic;
        line-height: 1.5;
    }
    
    .item-count {
        color: var(--text-muted);
        font-size: 0.9rem;
        margin-bottom: var(--space-4);
        padding-bottom: var(--space-2);
        border-bottom: 1px solid var(--border-primary);
    }
    
    /* ==========================================================================
       Links & Interactive Elements
       ========================================================================== */
    
    a {
        color: var(--link-primary);
        text-decoration: none;
        transition: color 0.2s cubic-bezier(0.4, 0, 0.2, 1);
    }
    
    a:hover {
        color: var(--link-hover);
        text-decoration: underline;
    }
    
    /* Tags */
    .tag {
        color: var(--text-muted);
        font-size: 0.85rem;
        margin-right: 0.5rem;
    }
    
    /* Breadcrumbs - minimal */
    .breadcrumbs {
        margin-bottom: var(--space-3);
        font-size: 0.9rem;
        color: var(--text-muted);
    }
    
    .breadcrumbs ol {
        list-style: none;
        display: flex;
"##;

/// One piece of a theme text.
pub const DEFAULT_STYLES_12: &'static str = r##"        align-items: center;
    }
    
    .breadcrumbs li {
        display: inline;
    }
    
    .breadcrumbs a {
        color: var(--text-secondary);
        text-decoration: none;
    }
    
    .breadcrumbs a:hover {
        color: var(--accent-primary);
    }
    
    .breadcrumbs .separator {
        margin: 0 0.5rem;
        color: var(--text-muted);
    }
    
    .breadcrumbs .current {
        color: var(--text-primary);
    }
    
    /* ==========================================================================
       Footer
       ========================================================================== */
    
    footer {
        grid-area: footer;
        background-color: var(--surface-raised);
        border-top: 1px solid var(--border-primary);
        padding: var(--space-3) 0;
        text-align: center;
        color: var(--text-muted);
        font-size: 0.85rem;
    }
    
    /* ==========================================================================
       Responsive Design - Mobile First Approach
       ========================================================================== */
    
    /* Small screens (mobile) */
    @media (max-width: 640px) {
        .container {
            padding: 0 var(--space-2);
        }

        /* Hide nav divider on mobile */
        .nav-divider {
            display: none;
        }
        
        .nav-container {
            grid-template-columns: 1fr;
            justify-items: center;
            gap: var(--space-2);
            text-align: center;
        }
        
        .nav-menu {
            justify-content: center;
        }
        
            grid-template-columns: repeat(2, 1fr);
            gap: var(--space-2);
            max-width: 200px;
        }
        
        .file-cards {
            gap: var(--space-2);
"##;

/// One piece of a theme text.
pub const DEFAULT_STYLES_13: &'static str = r##"        }
        
        .file-card {
            padding: var(--space-2);
        }
        
        .file-card-header {
            flex-direction: column;
            align-items: flex-start;
            gap: var(--space-1);
        }
        
        .file-card-meta {
            flex-direction: column;
            align-items: flex-start;
            gap: var(--space-1);
        }
        
        .file-tags {
            justify-content: flex-start;
        }
        
        /* Stack content more compactly on mobile */
            padding: var(--space-2) 0;
            margin-bottom: var(--space-4);
        }
        
        main {
            padding: var(--space-2) 0;
        }
    }
    
    /* Medium screens (tablet) */
    @media (min-width: 641px) and (max-width: 768px) {
        .nav-container {
            grid-template-columns: 1fr auto;
            gap: var(--space-3);
        }
        
            gap: var(--space-3);
            max-width: 300px;
        }
        
        .file-cards {
            max-width: 700px;
        }
    }
    
    /* Large screens */
    @media (min-width: 1024px) {
        .container {
            padding: 0 var(--space-6);
        }
        
        .document-list {
            grid-template-columns: repeat(auto-fit, minmax(400px, 1fr));
            gap: var(--space-3);
        }
        
        .file-cards {
            gap: var(--space-4);
        }
        
        .nav-container {
            gap: var(--space-6);
        }
    }
    
    /* ==========================================================================
       Loading States & Performance
       ========================================================================== */
    
    /* Add loading indicator for async operations */
    .loading {
        position: relative;
"##;

/// One piece of a theme text.
pub const DEFAULT_STYLES_14: &'static str = r##"        pointer-events: none;
        opacity: 0.7;
    }
    
    .loading::after {
        content: '';
        position: absolute;
        top: 50%;
        left: 50%;
        width: 20px;
        height: 20px;
        margin: -10px 0 0 -10px;
        border: 2px solid var(--accent-primary);
        border-radius: 50%;
        border-top-color: transparent;
        animation: spinner 0.8s linear infinite;
    }
    
    @keyframes spinner {
        to { transform: rotate(360deg); }
    }
    
    /* Ensure all transforms use GPU acceleration */
    .file-card,
    .document-entry,
    .search-result {
        transform: translateZ(0);
        backface-visibility: hidden;
        perspective: 1000px;
    }
    
    /* ==========================================================================
       Accessibility Enhancements
       ========================================================================== */
    
    /* Skip to main content link */
    .skip-link {
        position: absolute;
        top: -40px;
        left: 0;
        background: var(--accent-primary);
        color: white;
        padding: var(--space-1) var(--space-2);
        text-decoration: none;
        border-radius: 0 0 4px 0;
        z-index: 1001;
    }
    
    .skip-link:focus {
        top: 0;
    }
    
    /* High contrast mode support */
    @media (prefers-contrast: high) {
        :root {
            --text-primary: #ffffff;
            --text-secondary: #e0e0e0;
            --bg-primary: #000000;
            --bg-secondary: #1a1a1a;
            --border-primary: #ffffff;
        }
    }
    
    /* Print styles */
    @media print {
        header, footer, .search-box {
            display: none;
        }
        
        body {
            background: white;
            color: black;
"##;

/// One piece of a theme text.
pub const DEFAULT_STYLES_15: &'static str = r##"        }
        
        a {
            color: black;
            text-decoration: underline;
        }
    }
    
    /* ==========================================================================
       Comments Section
       ========================================================================== */
    
    .comments-section {
        margin-top: 3rem;
        padding-top: 2rem;
        border-top: 1px solid var(--border-primary);
    }
    
    .comments-section h2 {
        margin-bottom: 1.5rem;
        color: var(--text-primary);
    }
    
    #comments-list {
        margin-bottom: 2rem;
    }
    
    .loading {
        color: var(--text-muted);
        text-align: center;
        padding: 2rem;
    }
    
    .error-message {
        color: var(--error);
        background: var(--error-bg);
        padding: 1rem;
        border-radius: 8px;
        border: 1px solid rgba(239, 68, 68, 0.3);
        text-align: center;
        margin: 1rem 0;
    }
    
    .comment {
        margin-bottom: 1.5rem;
        padding: 1rem;
        background: var(--card-bg);
        border-radius: 8px;
        border: 1px solid var(--border-primary);
    }
    
    .comment-header {
        display: flex;
        align-items: center;
        gap: 0.5rem;
        margin-bottom: 0.75rem;
    }
    
    .avatar {
        width: 32px;
        height: 32px;
        border-radius: 50%;
        border: 2px solid var(--border-primary);
    }
    
    .comment-header .author {
        font-weight: 500;
        color: var(--text-primary);
        text-decoration: none;
    }
    
    .comment-header .author:hover {
        color: var(--accent-primary);
    }
    
    .comment-header .date {
        color: var(--text-muted);
        font-size: 0.85rem;
        margin-left: auto;
    }
"##;

/// One piece of a theme text.
pub const DEFAULT_STYLES_16: &'static str = r##"    
    .comment-body {
        color: var(--text-secondary);
        line-height: 1.6;
    }
    
    .comment-body p {
        margin: 0.5rem 0;
    }
    
    .comment-body p:first-child {
        margin-top: 0;
    }
    
    .comment-body p:last-child {
        margin-bottom: 0;
    }
    
    .comment-body code {
        background: var(--bg-secondary);
        padding: 0.2em 0.4em;
        border-radius: 3px;
        font-size: 0.9em;
    }
    
    .comment-body pre {
        background: var(--bg-secondary);
        padding: 1rem;
        border-radius: 4px;
        overflow-x: auto;
    }
    
    .comment-body blockquote {
        border-left: 3px solid var(--accent-primary);
        padding-left: 1rem;
        margin: 1rem 0;
        color: var(--text-muted);
    }
    
    #add-comment-btn {
        display: inline-block;
        background: var(--accent-primary);
        color: white;
        padding: 0.5rem 1rem;
        border-radius: 4px;
        text-decoration: none;
        font-weight: 500;
        transition: background-color 0.2s ease;
    }
    
    #add-comment-btn:hover {
        background: var(--accent-hover);
    }
    
    @media (max-width: 640px) {
        .comment {
            padding: 0.75rem;
        }
        
        .comment-header {
            flex-wrap: wrap;
        }
        
        .comment-header .date {
            width: 100%;
            margin-left: 0;
            margin-top: 0.5rem;
        }
    }
    "##;

/// The default style sheet, as a sequence of characters.
pub open spec fn default_styles_spec() -> Seq<char> {
    DEFAULT_STYLES_0@ + DEFAULT_STYLES_1@ + DEFAULT_STYLES_2@ + DEFAULT_STYLES_3@ + DEFAULT_STYLES_4@ + DEFAULT_STYLES_5@ + DEFAULT_STYLES_6@ + DEFAULT_STYLES_7@ + DEFAULT_STYLES_8@ + DEFAULT_STYLES_9@ + DEFAULT_STYLES_10@ + DEFAULT_STYLES_11@ + DEFAULT_STYLES_12@ + DEFAULT_STYLES_13@ + DEFAULT_STYLES_14@ + DEFAULT_STYLES_15@ + DEFAULT_STYLES_16@
}

fn default_styles_text() -> (s: String)
    ensures
        s@ == default_styles_spec(),
{
    let mut s = String::new();
    s.append(DEFAULT_STYLES_0);
    s.append(DEFAULT_STYLES_1);
    s.append(DEFAULT_STYLES_2);
    s.append(DEFAULT_STYLES_3);
    s.append(DEFAULT_STYLES_4);
    s.append(DEFAULT_STYLES_5);
    s.append(DEFAULT_STYLES_6);
    s.append(DEFAULT_STYLES_7);
    s.append(DEFAULT_STYLES_8);
    s.append(DEFAULT_STYLES_9);
    s.append(DEFAULT_STYLES_10);
    s.append(DEFAULT_STYLES_11);
    s.append(DEFAULT_STYLES_12);
    s.append(DEFAULT_STYLES_13);
    s.append(DEFAULT_STYLES_14);
    s.append(DEFAULT_STYLES_15);
    s.append(DEFAULT_STYLES_16);
    proof {
        assert(s@ =~= default_styles_spec());
    }
    s
}

/// What the rendered comments widget holds: the template with the
/// repository owner, name and issue number spliced in (an absent issue
/// number becomes the empty string, which the widget reports as comments
/// not yet enabled).
pub open spec fn comments_widget_spec(
    owner: Seq<char>,
    repo: Seq<char>,
    issue: Option<Seq<char>>,
) -> Seq<char> {
    replace_all_spec(
        replace_all_spec(
            replace_all_spec(comments_script_spec(), "{repo_owner}"@, owner),
            "{repo_name}"@,
            repo,
        ),
        "{issue_number}"@,
        match issue {
            Some(n) => n,
            None => Seq::empty(),
        },
    )
}

/// Render the comments widget for a repository and an optional issue.
pub fn render_comments_widget(repo_owner: &str, repo_name: &str, issue_number: Option<&str>) -> (r:
    String)
    ensures
        r@ == comments_widget_spec(
            repo_owner@,
            repo_name@,
            match issue_number {
                Some(n) => Some(n@),
                None => None,
            },
        ),
{
    let template = comments_script_text();
    let a = replace_all(template.as_str(), "{repo_owner}", repo_owner);
    let b = replace_all(a.as_str(), "{repo_name}", repo_name);
    match issue_number {
        Some(n) => replace_all(b.as_str(), "{issue_number}", n),
        None => {
            let r = replace_all(b.as_str(), "{issue_number}", "");
            proof {
                reveal_strlit("");
                assert(""@ =~= Seq::<char>::empty());
            }
            r
        },
    }
}

/// The JavaScript for header interactions.
pub fn generate_header_script() -> (r: String)
    ensures
        r@ == header_script_spec(),
{
    header_script_text()
}

/// The JavaScript for client-side search.
pub fn generate_search_script() -> (r: String)
    ensures
        r@ == search_script_spec(),
{
    search_script_text()
}

/// The default CSS.
pub fn get_default_styles() -> (r: String)
    ensures
        r@ == default_styles_spec(),
{
    default_styles_text()
}

/// The shared page template. Pages are assembled by the rendering layer;
/// the base template holds nothing yet.
pub fn generate_base_template() -> (r: Result<String, ParaSsgError>)
    ensures
        r is Ok,
        r.unwrap()@.len() == 0,
{
    Ok(String::new())
}

} // verus!

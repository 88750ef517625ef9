/* Opens a row's options menu upward where there is no room below. */
(function () {
    if (window.__inEntryOptions) { return; }
    window.__inEntryOptions = true;
    function closeOthers(except) {
        document.querySelectorAll('details.entry-options[open]').forEach(function (d) {
            if (d !== except) { d.removeAttribute('open'); }
        });
    }
    /* `toggle` does not bubble, but a capture listener still sees it
       on the way down; per-details listeners would need rewiring
       after every soft swap, this one survives them. */
    document.addEventListener('toggle', function (e) {
        var details = e.target;
        if (!details || !details.classList || !details.classList.contains('entry-options')) { return; }
        var panel = details.querySelector('.user-menu-panel');
        if (!details.hasAttribute('open')) {
            details.classList.remove('menu-up');
            if (panel) { panel.style.maxHeight = ''; panel.style.overflowY = ''; }
            return;
        }
        if (!panel) { return; }
        closeOthers(details);
        /* The toggle fires before the open layout settles (panel
           transition, the `:has` overflow lift), so a synchronously
           read rect is stale and the scroll fallback fired on menus
           that fit — measure one frame later, post-layout. */
        window.requestAnimationFrame(function () {
            if (!details.hasAttribute('open')) { return; }
            details.classList.remove('menu-up');
            var down = panel.getBoundingClientRect();
            if (down.bottom <= window.innerHeight - 8) { return; }
            var trigger = details.querySelector('summary');
            var anchor = trigger ? trigger.getBoundingClientRect() : details.getBoundingClientRect();
            var above = anchor.top - 4;
            var below = window.innerHeight - anchor.bottom - 4;
            if (above >= down.height || above > below) { details.classList.add('menu-up'); }
            /* Never taller than the room on the chosen side: without
               the cap a drop-up reaches over the topbar. */
            var up = details.classList.contains('menu-up');
            panel.style.maxHeight = Math.max(96, (up ? above : below) - 4) + 'px';
            panel.style.overflowY = 'auto';
            var r = panel.getBoundingClientRect();
            if (r.top < 0 && r.bottom > window.innerHeight) { panel.scrollIntoView({ block: 'nearest' }); }
        });
    }, true);
    document.addEventListener('click', function (e) {
        var el = e.target;
        /* A styled select's panel hangs off <body>, outside the
           details box but inside the menu's logic, so it must not
           close the menu it serves. */
        if (el && el.closest && (el.closest('details.entry-options') || el.closest('.dd-panel'))) { return; }
        closeOthers(null);
    }, true);
})();
